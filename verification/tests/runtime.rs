use fakexr::{
    create_reference_space, get_instance_proc_addr, set_action_state, ActionKind, ActionState,
    ActionStateBoolean, ActionStateFloat, ProcEntry, ReferenceSpaceKind, Runtime, SessionEvent,
    SessionState, XrError, XrFunction,
};

fn attached_runtime() -> (Runtime, u64, u64, u64, u64, u64) {
    let mut rt = Runtime::new();
    let instance = rt.create_instance();
    let session = rt.create_session(instance, 77);
    let set = rt.create_action_set();
    let button = rt.create_action(set, ActionKind::BooleanInput);
    let trigger = rt.create_action(set, ActionKind::FloatInput);
    assert_eq!(rt.attach_session_action_sets(session, &vec![set]), Ok(()));
    (rt, instance, session, set, button, trigger)
}

#[test]
fn handles_are_handed_out_in_order() {
    let mut rt = Runtime::new();
    let instance = rt.create_instance();
    let session = rt.create_session(instance, 5);
    let set = rt.create_action_set();
    let action = rt.create_action(set, ActionKind::PoseInput);
    assert_eq!((instance, session, set, action), (1, 2, 3, 4));
    assert!(rt.is_instance(instance));
    assert!(!rt.is_instance(session));
    assert!(!rt.is_instance(0));
    assert!(!rt.is_instance(99));
}

#[test]
fn session_lifecycle_events_come_in_order() {
    let mut rt = Runtime::new();
    let instance = rt.create_instance();
    assert_eq!(rt.poll_event(instance), None);
    let session = rt.create_session(instance, 9);
    rt.request_exit_session(session);
    rt.end_session(session);
    assert_eq!(
        rt.poll_event(instance),
        Some(SessionEvent { session, state: SessionState::Ready })
    );
    assert_eq!(
        rt.poll_event(instance),
        Some(SessionEvent { session, state: SessionState::Stopping })
    );
    assert_eq!(
        rt.poll_event(instance),
        Some(SessionEvent { session, state: SessionState::Exiting })
    );
    assert_eq!(rt.poll_event(instance), None);
}

#[test]
fn events_go_to_the_sessions_instance() {
    let mut rt = Runtime::new();
    let a = rt.create_instance();
    let b = rt.create_instance();
    let sa = rt.create_session(a, 1);
    let sb = rt.create_session(b, 2);
    assert_eq!(rt.poll_event(b), Some(SessionEvent { session: sb, state: SessionState::Ready }));
    assert_eq!(rt.poll_event(b), None);
    assert_eq!(rt.poll_event(a), Some(SessionEvent { session: sa, state: SessionState::Ready }));
}

#[test]
fn destroy_session_returns_its_device() {
    let mut rt = Runtime::new();
    let instance = rt.create_instance();
    let session = rt.create_session(instance, 0xdead);
    assert_eq!(rt.destroy_session(session), 0xdead);
}

#[test]
fn proc_addr_without_instance() {
    let rt = Runtime::new();
    assert_eq!(
        get_instance_proc_addr(&rt, 0, "xrCreateInstance"),
        Ok(ProcEntry::Implemented(XrFunction::CreateInstance))
    );
    assert_eq!(
        get_instance_proc_addr(&rt, 0, "xrEnumerateInstanceExtensionProperties"),
        Ok(ProcEntry::Stub(XrFunction::EnumerateInstanceExtensionProperties))
    );
    assert_eq!(
        get_instance_proc_addr(&rt, 0, "xrEnumerateApiLayerProperties"),
        Ok(ProcEntry::Stub(XrFunction::EnumerateApiLayerProperties))
    );
    assert_eq!(
        get_instance_proc_addr(&rt, 0, "xrDestroyInstance"),
        Err(XrError::HandleInvalid)
    );
}

#[test]
fn proc_addr_with_instance() {
    let mut rt = Runtime::new();
    let instance = rt.create_instance();
    assert_eq!(
        get_instance_proc_addr(&rt, instance, "xrGetInstanceProcAddr"),
        Ok(ProcEntry::Implemented(XrFunction::GetInstanceProcAddr))
    );
    assert_eq!(
        get_instance_proc_addr(&rt, instance, "xrSyncActions"),
        Ok(ProcEntry::Implemented(XrFunction::SyncActions))
    );
    assert_eq!(
        get_instance_proc_addr(&rt, instance, "xrPollEvent"),
        Ok(ProcEntry::Implemented(XrFunction::PollEvent))
    );
    assert_eq!(
        get_instance_proc_addr(&rt, instance, "xrLocateViews"),
        Ok(ProcEntry::Stub(XrFunction::LocateViews))
    );
    assert_eq!(
        get_instance_proc_addr(&rt, instance, "xrGetInputSourceLocalizedName"),
        Ok(ProcEntry::Stub(XrFunction::GetInputSourceLocalizedName))
    );
    assert_eq!(
        get_instance_proc_addr(&rt, instance, "xrCreateHandTrackerEXT"),
        Err(XrError::FunctionUnsupported)
    );
    assert_eq!(
        get_instance_proc_addr(&rt, instance, "xrCreateInstanc"),
        Err(XrError::FunctionUnsupported)
    );
}

#[test]
fn proc_addr_with_invalid_or_destroyed_instance() {
    let mut rt = Runtime::new();
    let instance = rt.create_instance();
    let session = rt.create_session(instance, 0);
    assert_eq!(
        get_instance_proc_addr(&rt, session, "xrCreateInstance"),
        Err(XrError::HandleInvalid)
    );
    assert_eq!(
        get_instance_proc_addr(&rt, 12345, "xrCreateInstance"),
        Err(XrError::HandleInvalid)
    );
    rt.destroy_instance(instance);
    assert_eq!(
        get_instance_proc_addr(&rt, instance, "xrCreateInstance"),
        Err(XrError::HandleInvalid)
    );
}

#[test]
fn boolean_state_is_read_back_after_sync() {
    let (mut rt, _, session, set, button, _) = attached_runtime();
    assert_eq!(
        rt.get_action_state_boolean(session, button),
        Ok(ActionStateBoolean { is_active: false, current_state: false })
    );
    set_action_state(&mut rt, button, ActionState::Bool(true));
    // not visible before the next sync
    assert_eq!(
        rt.get_action_state_boolean(session, button),
        Ok(ActionStateBoolean { is_active: false, current_state: false })
    );
    assert_eq!(rt.sync_actions(session, &vec![set]), Ok(()));
    assert_eq!(
        rt.get_action_state_boolean(session, button),
        Ok(ActionStateBoolean { is_active: true, current_state: true })
    );
    // the state stays until it is set again
    assert_eq!(rt.sync_actions(session, &vec![set]), Ok(()));
    assert_eq!(
        rt.get_action_state_boolean(session, button),
        Ok(ActionStateBoolean { is_active: true, current_state: true })
    );
}

#[test]
fn float_state_is_read_back_after_sync() {
    let (mut rt, _, session, set, _, trigger) = attached_runtime();
    let value = 0.75f32.to_bits();
    set_action_state(&mut rt, trigger, ActionState::Float(value));
    assert_eq!(
        rt.get_action_state_float(session, trigger),
        Ok(ActionStateFloat { is_active: false, current_state: 0 })
    );
    assert_eq!(rt.sync_actions(session, &vec![set]), Ok(()));
    assert_eq!(
        rt.get_action_state_float(session, trigger),
        Ok(ActionStateFloat { is_active: true, current_state: value })
    );
    assert_eq!(f32::from_bits(value), 0.75f32);
}

#[test]
fn sync_without_the_set_deactivates_it() {
    let (mut rt, _, session, set, button, _) = attached_runtime();
    set_action_state(&mut rt, button, ActionState::Bool(true));
    assert_eq!(rt.sync_actions(session, &vec![set]), Ok(()));
    assert_eq!(rt.sync_actions(session, &vec![]), Ok(()));
    assert_eq!(
        rt.get_action_state_boolean(session, button),
        Ok(ActionStateBoolean { is_active: false, current_state: false })
    );
}

#[test]
fn wrong_kind_is_a_type_mismatch() {
    let (mut rt, _, session, set, button, trigger) = attached_runtime();
    assert_eq!(rt.sync_actions(session, &vec![set]), Ok(()));
    assert_eq!(rt.get_action_state_float(session, button), Err(XrError::ActionTypeMismatch));
    assert_eq!(rt.get_action_state_boolean(session, trigger), Err(XrError::ActionTypeMismatch));
}

#[test]
fn unattached_session_reports_not_attached() {
    let mut rt = Runtime::new();
    let instance = rt.create_instance();
    let session = rt.create_session(instance, 0);
    let set = rt.create_action_set();
    let button = rt.create_action(set, ActionKind::BooleanInput);
    assert_eq!(rt.sync_actions(session, &vec![set]), Err(XrError::ActionSetNotAttached));
    assert_eq!(
        rt.get_action_state_boolean(session, button),
        Err(XrError::ActionSetNotAttached)
    );
}

#[test]
fn action_outside_the_attached_sets_is_not_attached() {
    let (mut rt, _, session, _, _, _) = attached_runtime();
    let other = rt.create_action_set();
    let stray = rt.create_action(other, ActionKind::BooleanInput);
    assert_eq!(rt.get_action_state_boolean(session, stray), Err(XrError::ActionSetNotAttached));
}

#[test]
fn second_attach_fails() {
    let (mut rt, _, session, _, _, _) = attached_runtime();
    let other = rt.create_action_set();
    assert_eq!(
        rt.attach_session_action_sets(session, &vec![other]),
        Err(XrError::ActionSetsAlreadyAttached)
    );
    // the failed attach froze nothing: actions can still be created in `other`
    let _ = rt.create_action(other, ActionKind::BooleanInput);
}

#[test]
fn sync_stops_at_an_unattached_set() {
    let mut rt = Runtime::new();
    let instance = rt.create_instance();
    let session = rt.create_session(instance, 0);
    let first = rt.create_action_set();
    let a = rt.create_action(first, ActionKind::BooleanInput);
    let second = rt.create_action_set();
    let b = rt.create_action(second, ActionKind::BooleanInput);
    let stray = rt.create_action_set();
    assert_eq!(rt.attach_session_action_sets(session, &vec![first, second]), Ok(()));
    set_action_state(&mut rt, a, ActionState::Bool(true));
    set_action_state(&mut rt, b, ActionState::Bool(true));
    assert_eq!(
        rt.sync_actions(session, &vec![first, stray, second]),
        Err(XrError::ActionSetNotAttached)
    );
    // the set before the unattached one was handled, the one after was not
    assert_eq!(
        rt.get_action_state_boolean(session, a),
        Ok(ActionStateBoolean { is_active: true, current_state: true })
    );
    assert_eq!(
        rt.get_action_state_boolean(session, b),
        Ok(ActionStateBoolean { is_active: false, current_state: false })
    );
    assert_eq!(rt.sync_actions(session, &vec![second]), Ok(()));
    assert_eq!(
        rt.get_action_state_boolean(session, b),
        Ok(ActionStateBoolean { is_active: true, current_state: true })
    );
}

#[test]
fn destroyed_action_lives_on_in_its_set() {
    let (mut rt, _, session, set, button, trigger) = attached_runtime();
    set_action_state(&mut rt, trigger, ActionState::Float(1.0f32.to_bits()));
    rt.destroy_action(button);
    assert!(!rt.action_handle_held(button));
    // the set still holds the action: it can be set, synced and read
    assert_eq!(rt.action_state(button), Some(ActionState::Bool(false)));
    set_action_state(&mut rt, button, ActionState::Bool(true));
    assert_eq!(rt.sync_actions(session, &vec![set]), Ok(()));
    assert_eq!(
        rt.get_action_state_boolean(session, button),
        Ok(ActionStateBoolean { is_active: true, current_state: true })
    );
    assert_eq!(rt.get_action_state_float(session, button), Err(XrError::ActionTypeMismatch));
    assert_eq!(
        rt.get_action_state_float(session, trigger),
        Ok(ActionStateFloat { is_active: true, current_state: 1.0f32.to_bits() })
    );
}

#[test]
fn destroyed_action_dies_with_its_set() {
    let mut rt = Runtime::new();
    let set = rt.create_action_set();
    let kept = rt.create_action(set, ActionKind::BooleanInput);
    let dropped = rt.create_action(set, ActionKind::BooleanInput);
    rt.destroy_action(dropped);
    assert_eq!(rt.action_state(dropped), Some(ActionState::Bool(false)));
    rt.destroy_action_set(set);
    assert_eq!(rt.action_state(dropped), None);
    // an action whose handle is still held outlives its set
    assert_eq!(rt.action_state(kept), Some(ActionState::Bool(false)));
}

#[test]
fn new_actions_start_at_rest() {
    let (mut rt, _, session, set, button, trigger) = attached_runtime();
    assert_eq!(rt.sync_actions(session, &vec![set]), Ok(()));
    assert_eq!(
        rt.get_action_state_boolean(session, button),
        Ok(ActionStateBoolean { is_active: true, current_state: false })
    );
    assert_eq!(
        rt.get_action_state_float(session, trigger),
        Ok(ActionStateFloat { is_active: true, current_state: 0 })
    );
}

#[test]
fn reference_space_handles() {
    assert_eq!(create_reference_space(ReferenceSpaceKind::View), 1);
    assert_eq!(create_reference_space(ReferenceSpaceKind::Local), 2);
    assert_eq!(create_reference_space(ReferenceSpaceKind::Stage), 3);
}

#[test]
fn names_served_without_instance_resolve_alike_with_one() {
    let mut rt = Runtime::new();
    let instance = rt.create_instance();
    for name in [
        "xrCreateInstance",
        "xrEnumerateInstanceExtensionProperties",
        "xrEnumerateApiLayerProperties",
    ] {
        assert_eq!(
            get_instance_proc_addr(&rt, 0, name),
            get_instance_proc_addr(&rt, instance, name)
        );
    }
}

#[test]
fn attach_freezes_the_sets() {
    let mut rt = Runtime::new();
    let instance = rt.create_instance();
    let session = rt.create_session(instance, 0);
    let set = rt.create_action_set();
    assert!(rt.is_open_action_set(set));
    assert!(!rt.is_attached(session));
    assert!(rt.can_attach(&vec![set]));
    assert!(!rt.can_attach(&vec![set, set]));
    assert!(!rt.can_attach(&vec![session]));
    assert_eq!(rt.attach_session_action_sets(session, &vec![set]), Ok(()));
    assert!(rt.is_attached(session));
    assert!(!rt.is_open_action_set(set));
    assert!(rt.is_action_set(set));
    assert!(!rt.can_attach(&vec![set]));
}

#[test]
fn handle_checks() {
    let (mut rt, instance, session, set, button, trigger) = attached_runtime();
    assert!(rt.is_session(session));
    assert!(!rt.is_session(set));
    assert!(rt.has_room());
    assert_eq!(rt.action_state(button), Some(ActionState::Bool(false)));
    assert_eq!(rt.action_state(trigger), Some(ActionState::Float(0)));
    assert_eq!(rt.action_state(set), None);
    assert!(rt.session_instance_live(session));
    assert!(rt.attached_sets_live(session));
    assert!(rt.attached_search_live(session, button));
    rt.destroy_action_set(set);
    assert!(!rt.attached_sets_live(session));
    assert!(!rt.attached_search_live(session, button));
    rt.destroy_instance(instance);
    assert!(!rt.session_instance_live(session));
}

#[test]
fn repeated_sync_changes_nothing() {
    let (mut rt, _, session, set, button, trigger) = attached_runtime();
    set_action_state(&mut rt, button, ActionState::Bool(true));
    set_action_state(&mut rt, trigger, ActionState::Float(0.5f32.to_bits()));
    let first = rt.sync_actions(session, &vec![set]);
    let b1 = rt.get_action_state_boolean(session, button);
    let f1 = rt.get_action_state_float(session, trigger);
    let second = rt.sync_actions(session, &vec![set]);
    assert_eq!(first, second);
    assert_eq!(rt.get_action_state_boolean(session, button), b1);
    assert_eq!(rt.get_action_state_float(session, trigger), f1);
    let stray = rt.create_action_set();
    let failed = rt.sync_actions(session, &vec![stray]);
    assert_eq!(failed, Err(XrError::ActionSetNotAttached));
    assert_eq!(rt.sync_actions(session, &vec![stray]), failed);
    assert_eq!(
        rt.get_action_state_boolean(session, button),
        Ok(ActionStateBoolean { is_active: false, current_state: false })
    );
}

#[test]
fn events_behind_a_nonempty_queue_keep_their_order() {
    let mut rt = Runtime::new();
    let instance = rt.create_instance();
    let s1 = rt.create_session(instance, 0);
    let s2 = rt.create_session(instance, 0);
    rt.request_exit_session(s1);
    rt.end_session(s2);
    rt.end_session(s1);
    let expected = [
        SessionEvent { session: s1, state: SessionState::Ready },
        SessionEvent { session: s2, state: SessionState::Ready },
        SessionEvent { session: s1, state: SessionState::Stopping },
        SessionEvent { session: s2, state: SessionState::Exiting },
        SessionEvent { session: s1, state: SessionState::Exiting },
    ];
    for e in expected {
        assert_eq!(rt.poll_event(instance), Some(e));
    }
    assert_eq!(rt.poll_event(instance), None);
}
