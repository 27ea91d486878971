//! The mathematical model of the runtime: the objects that handles name,
//! and what each operation does to them.
//!
//! A handle `h` names slot `h - 1` of the object sequence; handle 0 is the
//! null handle. Handles are never reused: a destroyed object leaves a
//! `Released` slot behind.

use vstd::prelude::*;

verus! {

/// The current value of an action. A float value is held as the IEEE-754
/// bit pattern of the `f32` (`f32::to_bits`); the runtime only stores and
/// hands back such values, it never computes with them.
#[derive(Clone, Copy, Debug, PartialEq, Eq, Structural)]
pub enum ActionState {
    Bool(bool),
    Pose,
    Float(u32),
}

/// The kinds of action the runtime can create.
#[derive(Clone, Copy, Debug, PartialEq, Eq, Structural)]
pub enum ActionKind {
    BooleanInput,
    PoseInput,
    FloatInput,
}

/// Session lifecycle states that the runtime reports through events.
#[derive(Clone, Copy, Debug, PartialEq, Eq, Structural)]
pub enum SessionState {
    Ready,
    Stopping,
    Exiting,
}

/// A session-state-changed event, queued on the instance that owns the
/// session (its timestamp is always zero).
#[derive(Clone, Copy, Debug, PartialEq, Eq, Structural)]
pub struct SessionEvent {
    pub session: u64,
    pub state: SessionState,
}

/// The error results that the runtime reports.
#[derive(Clone, Copy, Debug, PartialEq, Eq, Structural)]
pub enum XrError {
    HandleInvalid,
    FunctionUnsupported,
    ActionSetsAlreadyAttached,
    ActionSetNotAttached,
    ActionTypeMismatch,
}

/// The reference spaces that the runtime can create.
#[derive(Clone, Copy, Debug, PartialEq, Eq, Structural)]
pub enum ReferenceSpaceKind {
    View,
    Local,
    Stage,
}

/// What the runtime writes into an `XrActionStateBoolean`.
#[derive(Clone, Copy, Debug, PartialEq, Eq, Structural)]
pub struct ActionStateBoolean {
    pub is_active: bool,
    pub current_state: bool,
}

/// What the runtime writes into an `XrActionStateFloat`; the value is the
/// bit pattern of the `f32`.
#[derive(Clone, Copy, Debug, PartialEq, Eq, Structural)]
pub struct ActionStateFloat {
    pub is_active: bool,
    pub current_state: u32,
}

/// An object of the runtime, as the model sees it.
pub enum Obj {
    /// An instance and the queue of events not yet polled, oldest first.
    Instance { events: Seq<SessionEvent> },
    /// A session: its instance, the Vulkan device it was created with, and
    /// the action sets attached to it (once attached, never again).
    Session { instance: u64, vk_device: u64, attached: Option<Seq<u64>> },
    /// An action set: the actions created in it, whether it has been frozen
    /// by an attach, and whether the last sync made it active.
    ActionSet { actions: Seq<u64>, frozen: bool, active: bool },
    /// An action: its current state, the state waiting for the next sync,
    /// and whether its handle still holds it. Destroying the handle lets go
    /// of that hold only; the action set that the action was created in
    /// holds it too, for as long as the set lives.
    Action { state: ActionState, pending: Option<ActionState>, handle: bool },
    /// A destroyed object.
    Released,
}

/// The object that handle `h` names (`Released` for the null handle and for
/// handles never handed out).
pub open spec fn obj(m: Seq<Obj>, h: u64) -> Obj {
    if 1 <= h <= m.len() {
        m[h - 1]
    } else {
        Obj::Released
    }
}

pub open spec fn is_instance(m: Seq<Obj>, h: u64) -> bool {
    obj(m, h) is Instance
}

pub open spec fn is_session(m: Seq<Obj>, h: u64) -> bool {
    obj(m, h) is Session
}

pub open spec fn is_action_set(m: Seq<Obj>, h: u64) -> bool {
    obj(m, h) is ActionSet
}

pub open spec fn is_action(m: Seq<Obj>, h: u64) -> bool {
    obj(m, h) is Action
}

/// Whether action `h` is still alive: its handle holds it, or a live action
/// set does.
pub open spec fn action_alive(m: Seq<Obj>, h: u64) -> bool {
    obj(m, h) matches Obj::Action { handle, .. } && (handle || exists|i: int|
        0 <= i < m.len() && #[trigger] holds(m[i], h))
}

/// Whether the handle of action `h` has not been destroyed yet.
pub open spec fn action_handle_held(m: Seq<Obj>, h: u64) -> bool {
    obj(m, h) matches Obj::Action { handle, .. } && handle
}

/// `m` after the handle of action `h` was destroyed.
pub open spec fn handle_dropped(m: Seq<Obj>, h: u64) -> Seq<Obj> {
    match obj(m, h) {
        Obj::Action { state, pending, .. } => put(
            m,
            h,
            Obj::Action { state, pending, handle: false },
        ),
        _ => m,
    }
}

/// Whether two action states are of the same kind.
pub open spec fn same_kind(a: ActionState, b: ActionState) -> bool {
    match (a, b) {
        (ActionState::Bool(_), ActionState::Bool(_)) => true,
        (ActionState::Pose, ActionState::Pose) => true,
        (ActionState::Float(_), ActionState::Float(_)) => true,
        _ => false,
    }
}

/// The state of a newly created action of kind `kind`.
pub open spec fn initial_state(kind: ActionKind) -> ActionState {
    match kind {
        ActionKind::BooleanInput => ActionState::Bool(false),
        ActionKind::PoseInput => ActionState::Pose,
        ActionKind::FloatInput => ActionState::Float(0),
    }
}

/// What holds of every object in every reachable state: a set attached to a
/// session is frozen (or destroyed), and a pending action state has the kind
/// of the action.
pub open spec fn obj_wf(m: Seq<Obj>, o: Obj) -> bool {
    match o {
        Obj::Session { attached, .. } => attached matches Some(sets) ==> forall|j: int|
            0 <= j < sets.len() ==> {
                let s = #[trigger] obj(m, sets[j]);
                &&& 1 <= sets[j] <= m.len()
                &&& s is Released || (s matches Obj::ActionSet { frozen, .. } && frozen)
            },
        Obj::ActionSet { actions, .. } => forall|j: int|
            0 <= j < actions.len() ==> 1 <= #[trigger] actions[j] <= m.len(),
        Obj::Action { state, pending, .. } => pending matches Some(p) ==> same_kind(p, state),
        _ => true,
    }
}

/// Whether object `o` is an action set that holds action `a`.
pub open spec fn holds(o: Obj, a: u64) -> bool {
    o matches Obj::ActionSet { actions, .. } && actions.contains(a)
}

/// The runtime is well formed: every object is, and no action belongs to
/// two action sets.
#[verifier::opaque]
pub open spec fn wf(m: Seq<Obj>) -> bool {
    &&& forall|i: int| 0 <= i < m.len() ==> obj_wf(m, #[trigger] m[i])
    &&& forall|i: int, k: int, a: u64|
        0 <= i < m.len() && 0 <= k < m.len() && #[trigger] holds(m[i], a) && #[trigger] holds(
            m[k],
            a,
        ) ==> i == k
}

/// Whether one more handle can be handed out.
pub open spec fn has_room(m: Seq<Obj>) -> bool {
    m.len() + 1 < usize::MAX
}

/// The handle that the next created object gets.
pub open spec fn next_handle(m: Seq<Obj>) -> u64 {
    (m.len() + 1) as u64
}

/// `m` with the object of `h` replaced by `o`.
pub open spec fn put(m: Seq<Obj>, h: u64, o: Obj) -> Seq<Obj> {
    m.update(h - 1, o)
}

/// The events not yet polled on instance `h`.
pub open spec fn events_of(m: Seq<Obj>, h: u64) -> Seq<SessionEvent> {
    match obj(m, h) {
        Obj::Instance { events } => events,
        _ => Seq::empty(),
    }
}

/// `m` after `e` was queued on instance `h`.
pub open spec fn push_event(m: Seq<Obj>, h: u64, e: SessionEvent) -> Seq<Obj> {
    put(m, h, Obj::Instance { events: events_of(m, h).push(e) })
}

/// What polling instance `h` returns: its oldest queued event, if any.
pub open spec fn poll_result(m: Seq<Obj>, h: u64) -> Option<SessionEvent> {
    let q = events_of(m, h);
    if q.len() == 0 {
        None
    } else {
        Some(q[0])
    }
}

/// `m` after polling instance `h`.
pub open spec fn polled(m: Seq<Obj>, h: u64) -> Seq<Obj> {
    let q = events_of(m, h);
    if q.len() == 0 {
        m
    } else {
        put(m, h, Obj::Instance { events: q.drop_first() })
    }
}

/// `m` after session `session` sent, in order, one event for each state of
/// `states`.
pub open spec fn session_events(m: Seq<Obj>, session: u64, states: Seq<SessionState>) -> Seq<Obj>
    decreases states.len(),
{
    if states.len() == 0 {
        m
    } else {
        session_event(session_events(m, session, states.drop_last()), session, states.last())
    }
}

/// What `n` successive polls of instance `h` return, in order.
pub open spec fn poll_times(m: Seq<Obj>, h: u64, n: nat) -> Seq<Option<SessionEvent>>
    decreases n,
{
    if n == 0 {
        Seq::empty()
    } else {
        seq![poll_result(m, h)] + poll_times(polled(m, h), h, (n - 1) as nat)
    }
}

/// The instance of session `h`.
pub open spec fn instance_of(m: Seq<Obj>, h: u64) -> u64 {
    match obj(m, h) {
        Obj::Session { instance, .. } => instance,
        _ => 0,
    }
}

/// The action sets attached to session `h`, if any have been.
pub open spec fn attached_of(m: Seq<Obj>, h: u64) -> Option<Seq<u64>> {
    match obj(m, h) {
        Obj::Session { attached, .. } => attached,
        _ => None,
    }
}

/// `m` after session `session` sent an event with state `state`.
pub open spec fn session_event(m: Seq<Obj>, session: u64, state: SessionState) -> Seq<Obj> {
    push_event(m, instance_of(m, session), SessionEvent { session, state })
}

/// `m` after `pending` was set as the state for action `h`'s next sync.
pub open spec fn set_pending(m: Seq<Obj>, h: u64, pending: ActionState) -> Seq<Obj> {
    match obj(m, h) {
        Obj::Action { state, handle, .. } => put(
            m,
            h,
            Obj::Action { state, pending: Some(pending), handle },
        ),
        _ => m,
    }
}

/// The state of action `h`.
pub open spec fn action_state(m: Seq<Obj>, h: u64) -> ActionState {
    match obj(m, h) {
        Obj::Action { state, .. } => state,
        _ => ActionState::Pose,
    }
}

/// Whether action set `s` holds action `a`.
pub open spec fn set_has_action(m: Seq<Obj>, s: u64, a: u64) -> bool {
    obj(m, s) matches Obj::ActionSet { actions, .. } && actions.contains(a)
}

/// Whether action set `s` is active.
pub open spec fn set_active(m: Seq<Obj>, s: u64) -> bool {
    obj(m, s) matches Obj::ActionSet { active, .. } && active
}

/// Whether `k` is the first position in `sets` of a set holding action `a`.
pub open spec fn first_owner_at(m: Seq<Obj>, sets: Seq<u64>, a: u64, k: int) -> bool {
    &&& 0 <= k < sets.len()
    &&& set_has_action(m, sets[k], a)
    &&& forall|j: int| 0 <= j < k ==> !set_has_action(m, #[trigger] sets[j], a)
}

/// The first set of `sets` that holds action `a`, if any.
pub open spec fn owning_set(m: Seq<Obj>, sets: Seq<u64>, a: u64) -> Option<u64> {
    if exists|k: int| first_owner_at(m, sets, a, k) {
        Some(sets[choose|k: int| first_owner_at(m, sets, a, k)])
    } else {
        None
    }
}

/// Every set that a search of `sets` for action `a` looks at (the sets up to
/// and including the first one holding `a`) is a live action set.
pub open spec fn search_live(m: Seq<Obj>, sets: Seq<u64>, a: u64) -> bool {
    forall|k: int|
        0 <= k < sets.len() && (forall|j: int| 0 <= j < k ==> !set_has_action(m, #[trigger] sets[j], a))
            ==> is_action_set(m, #[trigger] sets[k])
}

/// The boolean state of action `a` as session `session` reports it.
pub open spec fn boolean_state(m: Seq<Obj>, session: u64, a: u64) -> Result<ActionStateBoolean, XrError> {
    match attached_of(m, session) {
        None => Err(XrError::ActionSetNotAttached),
        Some(sets) => match owning_set(m, sets, a) {
            None => Err(XrError::ActionSetNotAttached),
            Some(s) => match action_state(m, a) {
                ActionState::Bool(b) => if set_active(m, s) {
                    Ok(ActionStateBoolean { is_active: true, current_state: b })
                } else {
                    Ok(ActionStateBoolean { is_active: false, current_state: false })
                },
                _ => Err(XrError::ActionTypeMismatch),
            },
        },
    }
}

/// The float state of action `a` as session `session` reports it.
pub open spec fn float_state(m: Seq<Obj>, session: u64, a: u64) -> Result<ActionStateFloat, XrError> {
    match attached_of(m, session) {
        None => Err(XrError::ActionSetNotAttached),
        Some(sets) => match owning_set(m, sets, a) {
            None => Err(XrError::ActionSetNotAttached),
            Some(s) => match action_state(m, a) {
                ActionState::Float(f) => if set_active(m, s) {
                    Ok(ActionStateFloat { is_active: true, current_state: f })
                } else {
                    Ok(ActionStateFloat { is_active: false, current_state: 0 })
                },
                _ => Err(XrError::ActionTypeMismatch),
            },
        },
    }
}

/// Whether the first `n` sets of `active` are all attached.
pub open spec fn all_attached(attached: Seq<u64>, active: Seq<u64>, n: int) -> bool {
    forall|j: int| 0 <= j < n ==> attached.contains(#[trigger] active[j])
}

/// How many leading sets of `active` are attached: a sync handles these and
/// stops at the first one that is not.
pub open spec fn accepted_count(attached: Seq<u64>, active: Seq<u64>) -> int {
    if all_attached(attached, active, active.len() as int) {
        active.len() as int
    } else {
        choose|k: int|
            0 <= k < active.len() && all_attached(attached, active, k) && !attached.contains(
                active[k],
            )
    }
}

/// The object at slot `i` after a sync that deactivated the sets in
/// `attached` and then activated the sets in `on`, applying the pending
/// states of their actions.
pub open spec fn synced_obj(m: Seq<Obj>, attached: Seq<u64>, on: Seq<u64>, i: int) -> Obj {
    let h = (i + 1) as u64;
    match m[i] {
        Obj::ActionSet { actions, frozen, active } => if attached.contains(h) {
            Obj::ActionSet { actions, frozen, active: on.contains(h) }
        } else {
            m[i]
        },
        Obj::Action { state, pending, handle } => if exists|j: int|
            0 <= j < on.len() && set_has_action(m, #[trigger] on[j], h) {
            Obj::Action {
                state: match pending {
                    Some(p) => p,
                    None => state,
                },
                pending: None,
                handle,
            }
        } else {
            m[i]
        },
        _ => m[i],
    }
}

/// `m` after session `session` synced with the active sets `active`.
pub open spec fn synced(m: Seq<Obj>, session: u64, active: Seq<u64>) -> Seq<Obj> {
    match attached_of(m, session) {
        None => m,
        Some(attached) => {
            let on = active.take(accepted_count(attached, active));
            Seq::new(m.len(), |i: int| synced_obj(m, attached, on, i))
        },
    }
}

/// What a sync of session `session` with active sets `active` returns.
pub open spec fn sync_result(m: Seq<Obj>, session: u64, active: Seq<u64>) -> Result<(), XrError> {
    match attached_of(m, session) {
        None => Err(XrError::ActionSetNotAttached),
        Some(attached) => if accepted_count(attached, active) == active.len() {
            Ok(())
        } else {
            Err(XrError::ActionSetNotAttached)
        },
    }
}

/// What a sync of session `session` requires: every set attached to it is
/// still alive.
pub open spec fn sync_ready(m: Seq<Obj>, session: u64) -> bool {
    attached_of(m, session) matches Some(attached) ==> forall|j: int|
        0 <= j < attached.len() ==> is_action_set(m, #[trigger] attached[j])
}

/// What an attach of `sets` to a session not yet attached requires: each set
/// is a live action set, not frozen by an earlier attach, listed once.
pub open spec fn attachable(m: Seq<Obj>, sets: Seq<u64>) -> bool {
    &&& forall|j: int|
        0 <= j < sets.len() ==> (#[trigger] obj(m, sets[j]) matches Obj::ActionSet { frozen, .. }
            && !frozen)
    &&& forall|j: int, k: int| 0 <= j < k < sets.len() ==> sets[j] != sets[k]
}

/// `m` after `sets` were attached to session `session`.
pub open spec fn with_attached(m: Seq<Obj>, session: u64, sets: Seq<u64>) -> Seq<Obj> {
    attach_stage(m, session, sets, sets)
}

/// `m` with `sets` recorded on session `session` and the sets of `frozen`
/// frozen.
pub open spec fn attach_stage(m: Seq<Obj>, session: u64, sets: Seq<u64>, frozen: Seq<u64>) -> Seq<Obj> {
    Seq::new(
        m.len(),
        |i: int|
            if i == session - 1 {
                match m[i] {
                    Obj::Session { instance, vk_device, .. } => Obj::Session {
                        instance,
                        vk_device,
                        attached: Some(sets),
                    },
                    _ => m[i],
                }
            } else if frozen.contains((i + 1) as u64) {
                match m[i] {
                    Obj::ActionSet { actions, active, .. } => Obj::ActionSet {
                        actions,
                        frozen: true,
                        active,
                    },
                    _ => m[i],
                }
            } else {
                m[i]
            },
    )
}

/// `m` after a new action of kind `kind` was created in action set `set`.
pub open spec fn with_new_action(m: Seq<Obj>, set: u64, kind: ActionKind) -> Seq<Obj> {
    let m1 = m.push(Obj::Action { state: initial_state(kind), pending: None, handle: true });
    match obj(m, set) {
        Obj::ActionSet { actions, frozen, active } => put(
            m1,
            set,
            Obj::ActionSet { actions: actions.push(next_handle(m)), frozen, active },
        ),
        _ => m1,
    }
}

/// A new, empty action set.
pub open spec fn new_action_set() -> Obj {
    Obj::ActionSet { actions: Seq::empty(), frozen: false, active: false }
}

/// How an object may change from one state of the runtime to a later one:
/// it keeps its kind or is destroyed, a session is attached at most once,
/// and a frozen action set stays frozen.
pub open spec fn evolves(a: Obj, b: Obj) -> bool {
    match a {
        Obj::Instance { .. } => b is Instance || b is Released,
        Obj::Session { instance, vk_device, attached } => {
            ||| b is Released
            ||| b == a
            ||| attached is None && (b matches Obj::Session { instance: i2, vk_device: v2, .. }
                && i2 == instance && v2 == vk_device)
        },
        Obj::ActionSet { actions, frozen, .. } => {
            ||| b is Released
            ||| (b matches Obj::ActionSet { actions: a2, frozen: f2, .. } && a2 == actions && (frozen
                ==> f2))
        },
        Obj::Action { .. } => b is Released || b is Action,
        Obj::Released => b is Released,
    }
}

/// The object at slot `i` part way through a sync: the sets of `on` have
/// been activated, the other sets of `off` deactivated, and the pending
/// states applied of the actions of the sets of `applied` and of the actions
/// listed in `extra`.
pub open spec fn sync_stage_obj(
    m: Seq<Obj>,
    off: Seq<u64>,
    on: Seq<u64>,
    applied: Seq<u64>,
    extra: Seq<u64>,
    i: int,
) -> Obj {
    let h = (i + 1) as u64;
    match m[i] {
        Obj::ActionSet { actions, frozen, active } => if on.contains(h) {
            Obj::ActionSet { actions, frozen, active: true }
        } else if off.contains(h) {
            Obj::ActionSet { actions, frozen, active: false }
        } else {
            m[i]
        },
        Obj::Action { state, pending, handle } => if (exists|j: int|
            0 <= j < applied.len() && set_has_action(m, #[trigger] applied[j], h))
            || extra.contains(h) {
            Obj::Action {
                state: match pending {
                    Some(p) => p,
                    None => state,
                },
                pending: None,
                handle,
            }
        } else {
            m[i]
        },
        _ => m[i],
    }
}

pub open spec fn sync_stage(
    m: Seq<Obj>,
    off: Seq<u64>,
    on: Seq<u64>,
    applied: Seq<u64>,
    extra: Seq<u64>,
) -> Seq<Obj> {
    Seq::new(m.len(), |i: int| sync_stage_obj(m, off, on, applied, extra, i))
}

/// The handle value that a reference space of kind `kind` gets.
pub open spec fn reference_space_value(kind: ReferenceSpaceKind) -> u64 {
    match kind {
        ReferenceSpaceKind::View => 1,
        ReferenceSpaceKind::Local => 2,
        ReferenceSpaceKind::Stage => 3,
    }
}

} // verus!
