use fakexr::{pose_validity, PoseValidity};
use openxr_sys::{SpaceLocationFlags, SpaceVelocityFlags};

#[test]
fn pose_needs_position_and_orientation() {
    let only_position = SpaceLocationFlags::POSITION_VALID.into_raw();
    let only_orientation = SpaceLocationFlags::ORIENTATION_VALID.into_raw();
    let all_velocity =
        (SpaceVelocityFlags::LINEAR_VALID | SpaceVelocityFlags::ANGULAR_VALID).into_raw();
    assert_eq!(pose_validity(only_position, all_velocity), PoseValidity::Invalid);
    assert_eq!(pose_validity(only_orientation, all_velocity), PoseValidity::Invalid);
    assert_eq!(pose_validity(0, all_velocity), PoseValidity::Invalid);
}

#[test]
fn velocities_follow_their_flags() {
    let location = (SpaceLocationFlags::POSITION_VALID
        | SpaceLocationFlags::ORIENTATION_VALID
        | SpaceLocationFlags::POSITION_TRACKED)
        .into_raw();
    assert_eq!(
        pose_validity(location, 0),
        PoseValidity::Valid { linear_velocity: false, angular_velocity: false }
    );
    assert_eq!(
        pose_validity(location, SpaceVelocityFlags::LINEAR_VALID.into_raw()),
        PoseValidity::Valid { linear_velocity: true, angular_velocity: false }
    );
    assert_eq!(
        pose_validity(location, SpaceVelocityFlags::ANGULAR_VALID.into_raw()),
        PoseValidity::Valid { linear_velocity: false, angular_velocity: true }
    );
    assert_eq!(
        pose_validity(
            location,
            (SpaceVelocityFlags::LINEAR_VALID | SpaceVelocityFlags::ANGULAR_VALID).into_raw()
        ),
        PoseValidity::Valid { linear_velocity: true, angular_velocity: true }
    );
}
