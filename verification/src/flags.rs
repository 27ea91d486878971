//! Which parts of an OpenXR space location may be turned into an OpenVR pose.

use vstd::prelude::*;
use openxr_sys as xr;

verus! {

/// What the location and velocity flags of an OpenXR space relation allow a
/// pose converter to use.
#[derive(Clone, Copy, Debug, PartialEq, Eq, Structural)]
pub enum PoseValidity {
    /// Position or orientation is not valid: the pose is reported as invalid.
    Invalid,
    /// Position and orientation are valid; each velocity is used only when its
    /// own flag says that it is valid.
    Valid { linear_velocity: bool, angular_velocity: bool },
}

/// Raw bits of `SpaceLocationFlags::POSITION_VALID | SpaceLocationFlags::ORIENTATION_VALID`.
pub open spec fn pose_valid_bits() -> u64 {
    3
}

/// Raw bits of `SpaceVelocityFlags::LINEAR_VALID`.
pub open spec fn linear_valid_bits() -> u64 {
    1
}

/// Raw bits of `SpaceVelocityFlags::ANGULAR_VALID`.
pub open spec fn angular_valid_bits() -> u64 {
    2
}

/// The outcome of `pose_validity` on raw flag bits.
pub open spec fn spec_pose_validity(location_bits: u64, velocity_bits: u64) -> PoseValidity {
    if location_bits & pose_valid_bits() != pose_valid_bits() {
        PoseValidity::Invalid
    } else {
        PoseValidity::Valid {
            linear_velocity: velocity_bits & linear_valid_bits() == linear_valid_bits(),
            angular_velocity: velocity_bits & angular_valid_bits() == angular_valid_bits(),
        }
    }
}

/// `openxr_sys::SpaceLocationFlags::POSITION_VALID | ORIENTATION_VALID`, as raw
/// bits. The crate defines ORIENTATION_VALID as bit 0 and POSITION_VALID as
/// bit 1, and `|` as the bitwise or of the raw values.
#[verifier::external_body]
fn location_pose_valid() -> (bits: u64)
    ensures
        bits == pose_valid_bits(),
{
    (xr::SpaceLocationFlags::POSITION_VALID | xr::SpaceLocationFlags::ORIENTATION_VALID).into_raw()
}

/// `openxr_sys::SpaceVelocityFlags::LINEAR_VALID` as raw bits: bit 0 in the crate.
#[verifier::external_body]
fn velocity_linear_valid() -> (bits: u64)
    ensures
        bits == linear_valid_bits(),
{
    xr::SpaceVelocityFlags::LINEAR_VALID.into_raw()
}

/// `openxr_sys::SpaceVelocityFlags::ANGULAR_VALID` as raw bits: bit 1 in the crate.
#[verifier::external_body]
fn velocity_angular_valid() -> (bits: u64)
    ensures
        bits == angular_valid_bits(),
{
    xr::SpaceVelocityFlags::ANGULAR_VALID.into_raw()
}

/// `openxr_sys::SpaceLocationFlags::contains` on flags built with `from_raw`;
/// the crate defines it as `self & other == other` on the raw bits.
#[verifier::external_body]
fn location_flags_contain(flags: u64, wanted: u64) -> (r: bool)
    ensures
        r == (flags & wanted == wanted),
{
    xr::SpaceLocationFlags::from_raw(flags).contains(xr::SpaceLocationFlags::from_raw(wanted))
}

/// `openxr_sys::SpaceVelocityFlags::contains` on flags built with `from_raw`;
/// the crate defines it as `self & other == other` on the raw bits.
#[verifier::external_body]
fn velocity_flags_contain(flags: u64, wanted: u64) -> (r: bool)
    ensures
        r == (flags & wanted == wanted),
{
    xr::SpaceVelocityFlags::from_raw(flags).contains(xr::SpaceVelocityFlags::from_raw(wanted))
}

/// Decides, from the raw `location_flags` and `velocity_flags` of a space
/// location and velocity, whether a pose can be reported and which
/// velocities it may carry.
pub fn pose_validity(location_bits: u64, velocity_bits: u64) -> (r: PoseValidity)
    ensures
        r == spec_pose_validity(location_bits, velocity_bits),
{
    if !location_flags_contain(location_bits, location_pose_valid()) {
        return PoseValidity::Invalid;
    }
    let linear_velocity = velocity_flags_contain(velocity_bits, velocity_linear_valid());
    let angular_velocity = velocity_flags_contain(velocity_bits, velocity_angular_valid());
    PoseValidity::Valid { linear_velocity, angular_velocity }
}

/// A pose is reported exactly when both the orientation bit (bit 0) and
/// the position bit (bit 1) of the location flags are set; no other
/// location bit (such as the two tracked bits) and no velocity bit beyond
/// the linear (bit 0) and angular (bit 1) ones changes the answer; and a
/// reported pose carries each velocity exactly when its own bit is set.
pub proof fn law_pose_validity(location_bits: u64, velocity_bits: u64)
    ensures
        spec_pose_validity(location_bits, velocity_bits) is Invalid <==> (location_bits & 1 == 0
            || location_bits & 2 == 0),
        spec_pose_validity(location_bits, velocity_bits) == spec_pose_validity(
            location_bits & 3,
            velocity_bits & 3,
        ),
        spec_pose_validity(location_bits, velocity_bits) matches PoseValidity::Valid {
            linear_velocity,
            angular_velocity,
        } ==> (linear_velocity <==> velocity_bits & 1 == 1) && (angular_velocity <==> velocity_bits
            & 2 == 2),
{
    let l = location_bits;
    let v = velocity_bits;
    assert((l & 3 != 3) <==> (l & 1 == 0 || l & 2 == 0)) by (bit_vector);
    assert((l & 3) & 3 == l & 3) by (bit_vector);
    assert((v & 3) & 1 == v & 1) by (bit_vector);
    assert((v & 3) & 2 == v & 2) by (bit_vector);
}

} // verus!
