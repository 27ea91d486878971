//! Properties of the runtime that span several operations.

use vstd::prelude::*;
use crate::model::{
    ActionKind, ActionState, ActionStateBoolean, ActionStateFloat, Obj, SessionEvent, SessionState, XrError,
    accepted_count, action_state, all_attached, attachable, attached_of, boolean_state,
    events_of, first_owner_at, float_state, holds, instance_of, is_action, is_instance,
    is_action_set, is_session, next_handle, obj, owning_set, poll_result, poll_times, polled, put, same_kind,
    session_event, session_events, set_active, set_has_action, set_pending, sync_ready,
    sync_result, synced, wf, with_attached, with_new_action,
};
use crate::procs::{ProcEntry, XrFunction, instance_row, instance_table, null_instance_table, proc_addr, table_lookup};

verus! {

/// The first position of `x` in `s`.
proof fn lemma_first_index(s: Seq<u64>, x: u64, i: int) -> (k: int)
    requires
        0 <= i <= s.len(),
        s.contains(x),
        forall|j: int| 0 <= j < i ==> s[j] != x,
    ensures
        0 <= k < s.len(),
        s[k] == x,
        forall|j: int| 0 <= j < k ==> s[j] != x,
    decreases s.len() - i,
{
    if i < s.len() && s[i] == x {
        i
    } else {
        if i == s.len() {
            let q = choose|q: int| 0 <= q < s.len() && s[q] == x;
            assert(s[q] != x);
        }
        lemma_first_index(s, x, i + 1)
    }
}

/// The first position from `i` on of a set of `act` that is not attached,
/// or the length of `act` if there is none.
proof fn lemma_first_unattached(sets: Seq<u64>, act: Seq<u64>, i: int) -> (r: int)
    requires
        0 <= i <= act.len(),
        all_attached(sets, act, i),
    ensures
        i <= r <= act.len(),
        all_attached(sets, act, r),
        r < act.len() ==> !sets.contains(act[r]),
    decreases act.len() - i,
{
    if i == act.len() || !sets.contains(act[i]) {
        i
    } else {
        lemma_first_unattached(sets, act, i + 1)
    }
}

/// `accepted_count` counts the leading attached sets.
proof fn lemma_accepted_count(sets: Seq<u64>, act: Seq<u64>)
    ensures
        0 <= accepted_count(sets, act) <= act.len(),
        all_attached(sets, act, accepted_count(sets, act)),
        accepted_count(sets, act) < act.len() ==> !sets.contains(act[accepted_count(sets, act)]),
{
    let r = lemma_first_unattached(sets, act, 0);
    if !all_attached(sets, act, act.len() as int) {
        assert(r < act.len());
    }
}

/// In a well-formed runtime an action set that holds an action is the first
/// (indeed the only) set of any list holding it.
proof fn lemma_only_owner(m: Seq<Obj>, sets: Seq<u64>, set: u64, action: u64)
    requires
        wf(m),
        sets.contains(set),
        set_has_action(m, set, action),
    ensures
        owning_set(m, sets, action) == Some(set),
{
    reveal(wf);
    let k = lemma_first_index(sets, set, 0);
    assert forall|j: int| 0 <= j < k implies !set_has_action(m, #[trigger] sets[j], action) by {
        if set_has_action(m, sets[j], action) {
            assert(holds(m[sets[j] - 1], action));
            assert(holds(m[set - 1], action));
        }
    }
    assert(first_owner_at(m, sets, action, k));
    let c = choose|c: int| first_owner_at(m, sets, action, c);
    if c < k {
        assert(!set_has_action(m, sets[c], action));
    }
    if c > k {
        assert(!set_has_action(m, sets[k], action));
    }
}

/// Setting a pending state changes no action set and no action's kind or
/// current state.
proof fn lemma_set_pending_frame(m: Seq<Obj>, a: u64, st: ActionState, h: u64)
    requires
        is_action(m, a),
    ensures
        set_pending(m, a, st).len() == m.len(),
        h != a ==> obj(set_pending(m, a, st), h) == obj(m, h),
        action_state(set_pending(m, a, st), h) == action_state(m, h),
        set_has_action(set_pending(m, a, st), h, a) == set_has_action(m, h, a),
{
}

/// A sync keeps the action lists of all sets.
proof fn lemma_synced_lists(m: Seq<Obj>, session: u64, active: Seq<u64>, s: u64, a: u64)
    ensures
        synced(m, session, active).len() == m.len(),
        set_has_action(synced(m, session, active), s, a) == set_has_action(m, s, a),
{
    if attached_of(m, session) is Some && 1 <= s <= m.len() {
        let sets = attached_of(m, session)->0;
        let on = active.take(accepted_count(sets, active));
        assert(synced(m, session, active)[s - 1] == crate::model::synced_obj(m, sets, on, s - 1));
    }
}

/// Read back after write: once a boolean action's new state is set and a
/// sync of a session names the action's set among its active sets (all of
/// them attached), the sync succeeds and the session reads the new state,
/// active.
pub proof fn law_synced_boolean_is_read_back(
    m: Seq<Obj>,
    session: u64,
    set: u64,
    action: u64,
    v: bool,
    active: Seq<u64>,
)
    requires
        wf(m),
        is_session(m, session),
        sync_ready(m, session),
        attached_of(m, session) is Some,
        all_attached(attached_of(m, session)->0, active, active.len() as int),
        active.contains(set),
        set_has_action(m, set, action),
        action_state(m, action) is Bool,
    ensures
        sync_result(set_pending(m, action, ActionState::Bool(v)), session, active) == Ok::<
            (),
            XrError,
        >(()),
        boolean_state(
            synced(set_pending(m, action, ActionState::Bool(v)), session, active),
            session,
            action,
        ) == Ok::<ActionStateBoolean, XrError>(
            ActionStateBoolean { is_active: true, current_state: v },
        ),
{
    lemma_read_back(m, session, set, action, ActionState::Bool(v), active);
}

/// Read back after write for float actions: the synced session reads the
/// new value, active.
pub proof fn law_synced_float_is_read_back(
    m: Seq<Obj>,
    session: u64,
    set: u64,
    action: u64,
    v: u32,
    active: Seq<u64>,
)
    requires
        wf(m),
        is_session(m, session),
        sync_ready(m, session),
        attached_of(m, session) is Some,
        all_attached(attached_of(m, session)->0, active, active.len() as int),
        active.contains(set),
        set_has_action(m, set, action),
        action_state(m, action) is Float,
    ensures
        sync_result(set_pending(m, action, ActionState::Float(v)), session, active) == Ok::<
            (),
            XrError,
        >(()),
        float_state(
            synced(set_pending(m, action, ActionState::Float(v)), session, active),
            session,
            action,
        ) == Ok::<ActionStateFloat, XrError>(
            ActionStateFloat { is_active: true, current_state: v },
        ),
{
    lemma_read_back(m, session, set, action, ActionState::Float(v), active);
}

proof fn lemma_read_back(
    m: Seq<Obj>,
    session: u64,
    set: u64,
    action: u64,
    st: ActionState,
    active: Seq<u64>,
)
    requires
        wf(m),
        is_session(m, session),
        attached_of(m, session) is Some,
        all_attached(attached_of(m, session)->0, active, active.len() as int),
        active.contains(set),
        set_has_action(m, set, action),
        is_action(m, action),
    ensures
        sync_result(set_pending(m, action, st), session, active) == Ok::<(), XrError>(()),
        ({
            let m2 = synced(set_pending(m, action, st), session, active);
            &&& owning_set(m2, attached_of(m, session)->0, action) == Some(set)
            &&& set_active(m2, set)
            &&& action_state(m2, action) == st
        }),
{
    let sets = attached_of(m, session)->0;
    let m1 = set_pending(m, action, st);
    lemma_set_pending_frame(m, action, st, session);
    lemma_set_pending_frame(m, action, st, set);
    assert(attached_of(m1, session) == Some(sets));
    assert(accepted_count(sets, active) == active.len());
    let m2 = synced(m1, session, active);
    assert(active.take(active.len() as int) =~= active);
    let q = choose|q: int| 0 <= q < active.len() && active[q] == set;
    assert(sets.contains(active[q]));
    // the action's set is listed, so its pending state became current
    assert(set_has_action(m1, active[q], action));
    assert(m2[action - 1] == crate::model::synced_obj(m1, sets, active, action - 1));
    assert(action_state(m2, action) == st);
    // the set is attached and listed, so it is active
    assert(m2[set - 1] == crate::model::synced_obj(m1, sets, active, set - 1));
    assert(set_active(m2, set));
    // the only set holding the action is still `set`
    lemma_only_owner(m, sets, set, action);
    assert forall|j: int| 0 <= j < sets.len() implies set_has_action(m2, #[trigger] sets[j], action)
        == set_has_action(m, sets[j], action) by {
        lemma_synced_lists(m1, session, active, sets[j], action);
        lemma_set_pending_frame(m, action, st, sets[j]);
    }
    assert forall|k: int| first_owner_at(m2, sets, action, k) <==> first_owner_at(m, sets, action, k) by {
        if 0 <= k < sets.len() {
            assert(set_has_action(m2, sets[k], action) == set_has_action(m, sets[k], action));
        }
    }
}

/// A state set for the next sync is not visible before that sync: every
/// read of every action gives what it gave before.
pub proof fn law_pending_state_is_invisible(
    m: Seq<Obj>,
    action: u64,
    st: ActionState,
    session: u64,
    read: u64,
)
    requires
        is_action(m, action),
    ensures
        boolean_state(set_pending(m, action, st), session, read) == boolean_state(m, session, read),
        float_state(set_pending(m, action, st), session, read) == float_state(m, session, read),
{
    let m1 = set_pending(m, action, st);
    lemma_set_pending_frame(m, action, st, session);
    lemma_set_pending_frame(m, action, st, read);
    if let Some(sets) = attached_of(m, session) {
        assert forall|k: int| first_owner_at(m1, sets, read, k) <==> first_owner_at(m, sets, read, k) by {
            if 0 <= k < sets.len() {
                lemma_set_pending_frame(m, action, st, sets[k]);
            }
            assert forall|j: int| 0 <= j < k implies set_has_action(m1, #[trigger] sets[j], read)
                == set_has_action(m, sets[j], read) by {
                lemma_set_pending_frame(m, action, st, sets[j]);
            }
        }
        if let Some(s) = owning_set(m, sets, read) {
            lemma_set_pending_frame(m, action, st, s);
        }
    }
}

/// After a sync that does not name an attached set, the set is inactive,
/// it is still the set the session finds for its actions, and their states
/// are as before.
proof fn lemma_unlisted_set(m: Seq<Obj>, session: u64, set: u64, action: u64, active: Seq<u64>)
    requires
        wf(m),
        is_session(m, session),
        attached_of(m, session) matches Some(sets) && sets.contains(set),
        !active.contains(set),
        set_has_action(m, set, action),
        is_action(m, action),
    ensures
        ({
            let m2 = synced(m, session, active);
            &&& attached_of(m2, session) == attached_of(m, session)
            &&& owning_set(m2, attached_of(m, session)->0, action) == Some(set)
            &&& !set_active(m2, set)
            &&& action_state(m2, action) == action_state(m, action)
        }),
{
    let sets = attached_of(m, session)->0;
    let n = accepted_count(sets, active);
    let on = active.take(n);
    let m2 = synced(m, session, active);
    lemma_accepted_count(sets, active);
    assert(!on.contains(set)) by {
        if on.contains(set) {
            let q = choose|q: int| 0 <= q < on.len() && on[q] == set;
            assert(active[q] == set);
        }
    }
    assert(m2[set - 1] == crate::model::synced_obj(m, sets, on, set - 1));
    assert(!set_active(m2, set));
    assert(m2[action - 1] == crate::model::synced_obj(m, sets, on, action - 1));
    assert forall|j: int| 0 <= j < on.len() implies !set_has_action(m, #[trigger] on[j], action) by {
        if set_has_action(m, on[j], action) {
            reveal(wf);
            assert(holds(m[on[j] - 1], action));
            assert(holds(m[set - 1], action));
        }
    }
    assert(action_state(m2, action) == action_state(m, action));
    lemma_only_owner(m, sets, set, action);
    assert forall|j: int| 0 <= j < sets.len() implies set_has_action(m2, #[trigger] sets[j], action)
        == set_has_action(m, sets[j], action) by {
        lemma_synced_lists(m, session, active, sets[j], action);
    }
    assert forall|k: int| first_owner_at(m2, sets, action, k) <==> first_owner_at(m, sets, action, k) by {
        if 0 <= k < sets.len() {
            assert(set_has_action(m2, sets[k], action) == set_has_action(m, sets[k], action));
        }
    }
    assert(attached_of(m2, session) == Some(sets)) by {
        assert(m2[session - 1] == crate::model::synced_obj(m, sets, on, session - 1));
    }
}

/// An attached set that a sync does not name is inactive afterwards, and
/// its boolean actions read as inactive and false.
pub proof fn law_unlisted_set_reads_inactive(
    m: Seq<Obj>,
    session: u64,
    set: u64,
    action: u64,
    active: Seq<u64>,
)
    requires
        wf(m),
        is_session(m, session),
        attached_of(m, session) matches Some(sets) && sets.contains(set),
        !active.contains(set),
        set_has_action(m, set, action),
        action_state(m, action) is Bool,
    ensures
        boolean_state(synced(m, session, active), session, action) == Ok::<
            ActionStateBoolean,
            XrError,
        >(ActionStateBoolean { is_active: false, current_state: false }),
{
    lemma_unlisted_set(m, session, set, action, active);
}

/// An attached set that a sync does not name is inactive afterwards, and
/// its float actions read as inactive with the value 0.0 (bit pattern 0),
/// whatever value they hold.
pub proof fn law_unlisted_set_reads_inactive_float(
    m: Seq<Obj>,
    session: u64,
    set: u64,
    action: u64,
    active: Seq<u64>,
)
    requires
        wf(m),
        is_session(m, session),
        attached_of(m, session) matches Some(sets) && sets.contains(set),
        !active.contains(set),
        set_has_action(m, set, action),
        action_state(m, action) is Float,
    ensures
        float_state(synced(m, session, active), session, action) == Ok::<
            ActionStateFloat,
            XrError,
        >(ActionStateFloat { is_active: false, current_state: 0 }),
{
    lemma_unlisted_set(m, session, set, action, active);
}

/// What a successful read reports: an active read gives the action's own
/// value; an inactive read gives false, or 0.0 (bit pattern 0) for a float,
/// whatever the action holds; and a read succeeds only for an action of the
/// kind read, which it finds in a set attached to the session.
pub proof fn law_reads_report_value_only_when_active(m: Seq<Obj>, session: u64, action: u64)
    ensures
        boolean_state(m, session, action) matches Ok(st) ==> {
            &&& action_state(m, action) is Bool
            &&& attached_of(m, session) matches Some(sets) && owning_set(m, sets, action) matches Some(s)
                && st.is_active == set_active(m, s)
            &&& st.is_active ==> action_state(m, action) == ActionState::Bool(st.current_state)
            &&& !st.is_active ==> !st.current_state
        },
        float_state(m, session, action) matches Ok(st) ==> {
            &&& action_state(m, action) is Float
            &&& attached_of(m, session) matches Some(sets) && owning_set(m, sets, action) matches Some(s)
                && st.is_active == set_active(m, s)
            &&& st.is_active ==> action_state(m, action) == ActionState::Float(st.current_state)
            &&& !st.is_active ==> st.current_state == 0
        },
{
}

/// A new action starts in the state of the kind asked for: a boolean
/// action at false, a pose action as a pose, a float action at 0.0 (bit
/// pattern 0); it has nothing pending, and its set now holds it.
pub proof fn law_new_action_has_its_kind(m: Seq<Obj>, set: u64, kind: ActionKind)
    requires
        is_action_set(m, set),
        crate::model::has_room(m),
    ensures
        ({
            let m2 = with_new_action(m, set, kind);
            let h = next_handle(m);
            &&& is_action(m2, h)
            &&& kind == ActionKind::BooleanInput ==> action_state(m2, h) == ActionState::Bool(false)
            &&& kind == ActionKind::PoseInput ==> action_state(m2, h) == ActionState::Pose
            &&& kind == ActionKind::FloatInput ==> action_state(m2, h) == ActionState::Float(0)
            &&& obj(m2, h) matches Obj::Action { pending, .. } && pending is None
            &&& set_has_action(m2, set, h)
        }),
{
    let m2 = with_new_action(m, set, kind);
    let h = next_handle(m);
    let m1 = m.push(Obj::Action { state: crate::model::initial_state(kind), pending: None, handle: true });
    assert(m1[h - 1] == Obj::Action { state: crate::model::initial_state(kind), pending: None, handle: true });
    assert(set != h);
    assert(m2[h - 1] == m1[h - 1]);
    if let Obj::ActionSet { actions, .. } = obj(m, set) {
        assert(actions.push(h)[actions.len() as int] == h);
    }
}

/// Any list of distinct, live action sets not attached before may be
/// attached, however many sets it holds; and only such lists may.
pub proof fn law_attachable_sets(m: Seq<Obj>, sets: Seq<u64>)
    ensures
        attachable(m, sets) <==> {
            &&& forall|j: int| 0 <= j < sets.len() ==> #[trigger] is_action_set(m, sets[j])
            &&& forall|j: int| 0 <= j < sets.len() ==> !(#[trigger] obj(m, sets[j]) matches Obj::ActionSet { frozen, .. } && frozen)
            &&& forall|j: int, k: int| 0 <= j < sets.len() && 0 <= k < sets.len() && j != k ==> sets[j] != sets[k]
        },
{
    let live = forall|j: int| 0 <= j < sets.len() ==> #[trigger] is_action_set(m, sets[j]);
    let open = forall|j: int| 0 <= j < sets.len() ==> !(#[trigger] obj(m, sets[j]) matches Obj::ActionSet { frozen, .. } && frozen);
    let distinct = forall|j: int, k: int| 0 <= j < sets.len() && 0 <= k < sets.len() && j != k ==> sets[j] != sets[k];
    if attachable(m, sets) {
        assert forall|j: int| 0 <= j < sets.len() implies #[trigger] is_action_set(m, sets[j]) by {
            assert(obj(m, sets[j]) is ActionSet);
        }
        assert forall|j: int, k: int| 0 <= j < sets.len() && 0 <= k < sets.len() && j != k implies sets[j] != sets[k] by {
            if k < j {
                assert(sets[k] != sets[j]);
            }
        }
    }
    if live && open && distinct {
        assert forall|j: int| 0 <= j < sets.len() implies (#[trigger] obj(m, sets[j]) matches Obj::ActionSet { frozen, .. } && !frozen) by {
            assert(is_action_set(m, sets[j]));
        }
    }
}

/// A sync never changes the kind of an action's state, so an action read
/// with the wrong kind keeps failing with a type mismatch.
pub proof fn law_sync_keeps_action_kinds(m: Seq<Obj>, session: u64, active: Seq<u64>, a: u64)
    requires
        wf(m),
        is_action(m, a),
    ensures
        same_kind(action_state(synced(m, session, active), a), action_state(m, a)),
{
    reveal(wf);
    assert(crate::model::obj_wf(m, m[a - 1]));
    if let Some(sets) = attached_of(m, session) {
        let on = active.take(accepted_count(sets, active));
        assert(synced(m, session, active)[a - 1] == crate::model::synced_obj(m, sets, on, a - 1));
    }
}

/// Sending an event changes no object's kind and no session's instance.
proof fn lemma_session_event_frame(m: Seq<Obj>, session: u64, state: SessionState, h: u64)
    requires
        is_session(m, session),
        is_instance(m, instance_of(m, session)),
    ensures
        is_session(session_event(m, session, state), h) == is_session(m, h),
        is_instance(session_event(m, session, state), h) == is_instance(m, h),
        instance_of(session_event(m, session, state), h) == instance_of(m, h),
        h != instance_of(m, session) ==> events_of(session_event(m, session, state), h)
            == events_of(m, h),
        events_of(session_event(m, session, state), instance_of(m, session)) == events_of(
            m,
            instance_of(m, session),
        ).push(SessionEvent { session, state }),
{
}

/// The events that session `session` sends for `states`, in order.
pub open spec fn events_for(session: u64, states: Seq<SessionState>) -> Seq<SessionEvent> {
    states.map_values(|state: SessionState| SessionEvent { session, state })
}

/// Every event a session sends is appended to its instance's queue, behind
/// whatever was queued before, in the order sent; no other queue changes.
pub proof fn law_sent_events_are_appended(m: Seq<Obj>, session: u64, states: Seq<SessionState>, h: u64)
    requires
        is_session(m, session),
        is_instance(m, instance_of(m, session)),
    ensures
        is_session(session_events(m, session, states), session),
        instance_of(session_events(m, session, states), session) == instance_of(m, session),
        is_instance(session_events(m, session, states), instance_of(m, session)),
        events_of(session_events(m, session, states), instance_of(m, session)) == events_of(
            m,
            instance_of(m, session),
        ) + events_for(session, states),
        h != instance_of(m, session) ==> events_of(session_events(m, session, states), h)
            == events_of(m, h),
    decreases states.len(),
{
    let i = instance_of(m, session);
    if states.len() == 0 {
        assert(events_of(m, i) + events_for(session, states) =~= events_of(m, i));
    } else {
        let rest = states.drop_last();
        law_sent_events_are_appended(m, session, rest, h);
        let m1 = session_events(m, session, rest);
        lemma_session_event_frame(m1, session, states.last(), session);
        lemma_session_event_frame(m1, session, states.last(), i);
        lemma_session_event_frame(m1, session, states.last(), h);
        assert(events_of(m, i) + events_for(session, states) =~= (events_of(m, i) + events_for(
            session,
            rest,
        )).push(SessionEvent { session, state: states.last() }));
    }
}

/// Polling an instance takes its queue from the front: the `k`-th of `n`
/// successive polls returns the `k`-th queued event, or nothing once the
/// queue is used up.
pub proof fn law_polls_take_the_queue_in_order(m: Seq<Obj>, h: u64, n: nat)
    requires
        is_instance(m, h),
    ensures
        poll_times(m, h, n).len() == n,
        forall|k: int|
            0 <= k < n ==> #[trigger] poll_times(m, h, n)[k] == (if k < events_of(m, h).len() {
                Some(events_of(m, h)[k])
            } else {
                None::<SessionEvent>
            }),
    decreases n,
{
    if n > 0 {
        let q = events_of(m, h);
        let m1 = polled(m, h);
        law_polls_take_the_queue_in_order(m1, h, (n - 1) as nat);
        let rest = poll_times(m1, h, (n - 1) as nat);
        if q.len() > 0 {
            assert(events_of(m1, h) =~= q.drop_first());
        }
        assert forall|k: int| 0 <= k < n implies #[trigger] poll_times(m, h, n)[k] == (if k
            < events_of(m, h).len() {
            Some(events_of(m, h)[k])
        } else {
            None::<SessionEvent>
        }) by {
            if k > 0 {
                assert(poll_times(m, h, n)[k] == rest[k - 1]);
            }
        }
    }
}

/// Session events come out first in, first out: after a session sends the
/// events of `states`, `n` polls of its instance return the events queued
/// before, then the new ones in the order sent, then nothing.
pub proof fn law_events_in_order(m: Seq<Obj>, session: u64, states: Seq<SessionState>, n: nat)
    requires
        is_session(m, session),
        is_instance(m, instance_of(m, session)),
    ensures
        ({
            let i = instance_of(m, session);
            let q = events_of(m, i) + events_for(session, states);
            forall|k: int|
                0 <= k < n ==> #[trigger] poll_times(session_events(m, session, states), i, n)[k]
                    == (if k < q.len() {
                    Some(q[k])
                } else {
                    None::<SessionEvent>
                })
        }),
{
    let i = instance_of(m, session);
    law_sent_events_are_appended(m, session, states, i);
    law_polls_take_the_queue_in_order(session_events(m, session, states), i, n);
}

/// Syncing again with the same active sets, with no state set in between,
/// returns the same result and changes nothing.
pub proof fn law_repeated_sync_changes_nothing(m: Seq<Obj>, session: u64, active: Seq<u64>)
    ensures
        sync_result(synced(m, session, active), session, active) == sync_result(m, session, active),
        synced(synced(m, session, active), session, active) == synced(m, session, active),
{
    let m1 = synced(m, session, active);
    if let Some(sets) = attached_of(m, session) {
        let on = active.take(accepted_count(sets, active));
        assert(is_session(m, session) ==> m1[session - 1] == crate::model::synced_obj(
            m,
            sets,
            on,
            session - 1,
        ));
        assert(attached_of(m1, session) == Some(sets));
        let m2 = synced(m1, session, active);
        assert forall|x: int| 0 <= x < m2.len() implies m2[x] == m1[x] by {
            let y = (x + 1) as u64;
            assert(m1[x] == crate::model::synced_obj(m, sets, on, x));
            assert(m2[x] == crate::model::synced_obj(m1, sets, on, x));
            assert forall|j: int| 0 <= j < on.len() implies set_has_action(m1, #[trigger] on[j], y)
                == set_has_action(m, on[j], y) by {
                lemma_synced_lists(m, session, active, on[j], y);
            }
        }
        assert(m2 =~= m1);
    }
}

/// A newly handed out handle names no object that existed before.
pub proof fn law_new_handle_is_fresh(m: Seq<Obj>, h: u64)
    requires
        m.len() + 1 < usize::MAX,
        obj(m, h) !is Released,
    ensures
        h != next_handle(m),
        obj(m, next_handle(m)) is Released,
{
}

/// Once an instance is destroyed, its handle resolves no function.
pub proof fn law_destroyed_instance_resolves_nothing(m: Seq<Obj>, instance: u64, name: Seq<char>)
    requires
        is_instance(m, instance),
    ensures
        proc_addr(put(m, instance, Obj::Released), instance, name) == Err::<
            crate::procs::ProcEntry,
            XrError,
        >(XrError::HandleInvalid),
{
}

/// A session with no attached action sets cannot sync: the sync fails and
/// changes nothing.
pub proof fn law_sync_needs_attach(m: Seq<Obj>, session: u64, active: Seq<u64>)
    requires
        attached_of(m, session) is None,
    ensures
        sync_result(m, session, active) == Err::<(), XrError>(XrError::ActionSetNotAttached),
        synced(m, session, active) == m,
{
}

/// Attaching makes every attached action set immutable: none of them is
/// open for new actions afterwards, and the session records exactly the
/// sets it was given.
pub proof fn law_attached_sets_are_frozen(m: Seq<Obj>, session: u64, sets: Seq<u64>, set: u64)
    requires
        is_session(m, session),
        attachable(m, sets),
        sets.contains(set),
    ensures
        obj(with_attached(m, session, sets), set) matches Obj::ActionSet { frozen, .. } && frozen,
        attached_of(with_attached(m, session, sets), session) == Some(sets),
{
    let j = choose|j: int| 0 <= j < sets.len() && sets[j] == set;
    assert(obj(m, sets[j]) is ActionSet);
    assert(((set - 1) + 1) as u64 == set);
}

/// The entry points served before an instance exists are served alike
/// once one does.
pub proof fn law_null_instance_names_resolve_alike(name: Seq<char>)
    requires
        table_lookup(null_instance_table(), name) is Some,
    ensures
        table_lookup(instance_table(), name) == table_lookup(null_instance_table(), name),
{
    reveal_strlit("xrGetInstanceProcAddr");
    reveal_strlit("xrCreateInstance");
    reveal_strlit("xrDestroyInstance");
    reveal_strlit("xrEnumerateInstanceExtensionProperties");
    reveal_strlit("xrEnumerateApiLayerProperties");
    let n = null_instance_table();
    let t = instance_table();
    assert(n.drop_first().drop_first().drop_first().len() == 0);
    assert(table_lookup(n, name) == if name == "xrCreateInstance"@ {
        Some(n[0].1)
    } else if name == "xrEnumerateInstanceExtensionProperties"@ {
        Some(n[1].1)
    } else if name == "xrEnumerateApiLayerProperties"@ {
        Some(n[2].1)
    } else {
        table_lookup(n.drop_first().drop_first().drop_first(), name)
    }) by {
        reveal_with_fuel(table_lookup, 4);
    }
    assert(t.drop_first()[0] == t[1]);
    assert(t.drop_first().drop_first()[0] == t[2]);
    assert(t.drop_first().drop_first().drop_first()[0] == t[3]);
    assert(t.drop_first().drop_first().drop_first().drop_first()[0] == t[4]);
    assert(name.len() == 16 || name.len() == 38 || name.len() == 29);
    reveal_with_fuel(table_lookup, 6);
}

/// In any table, a name resolves to the entry of its first row.
proof fn lemma_lookup_first(t: Seq<(&'static str, ProcEntry)>, name: Seq<char>, k: int)
    requires
        0 <= k < t.len(),
        t[k].0@ == name,
        forall|j: int| 0 <= j < k ==> #[trigger] t[j].0@ != name,
    ensures
        table_lookup(t, name) == Some(t[k].1),
    decreases k,
{
    if k > 0 {
        assert(t[0].0@ != name);
        lemma_lookup_first(t.drop_first(), name, k - 1);
    }
}

/// The length of the name of row `i` of the live-instance table.
spec fn row_len(i: int) -> nat {
    if i == 0 {
        21
    } else if i == 1 {
        16
    } else if i == 2 {
        17
    } else if i == 3 {
        38
    } else if i == 4 {
        29
    } else if i == 5 {
        32
    } else if i == 6 {
        30
    } else if i == 7 {
        28
    } else if i == 8 {
        34
    } else if i == 9 {
        11
    } else if i == 10 {
        15
    } else if i == 11 {
        16
    } else if i == 12 {
        14
    } else if i == 13 {
        12
    } else if i == 14 {
        22
    } else if i == 15 {
        11
    } else if i == 16 {
        14
    } else if i == 17 {
        13
    } else if i == 18 {
        20
    } else if i == 19 {
        16
    } else if i == 20 {
        23
    } else if i == 21 {
        23
    } else if i == 22 {
        21
    } else if i == 23 {
        17
    } else if i == 24 {
        18
    } else if i == 25 {
        26
    } else if i == 26 {
        23
    } else if i == 27 {
        20
    } else if i == 28 {
        23
    } else if i == 29 {
        27
    } else if i == 30 {
        26
    } else if i == 31 {
        19
    } else if i == 32 {
        13
    } else if i == 33 {
        29
    } else if i == 34 {
        32
    } else if i == 35 {
        32
    } else if i == 36 {
        33
    } else if i == 37 {
        12
    } else if i == 38 {
        10
    } else if i == 39 {
        11
    } else if i == 40 {
        21
    } else if i == 41 {
        20
    } else if i == 42 {
        11
    } else if i == 43 {
        14
    } else if i == 44 {
        14
    } else if i == 45 {
        29
    } else if i == 46 {
        23
    } else if i == 47 {
        21
    } else if i == 48 {
        24
    } else if i == 49 {
        20
    } else if i == 50 {
        17
    } else if i == 51 {
        18
    } else if i == 52 {
        14
    } else if i == 53 {
        15
    } else if i == 54 {
        35
    } else if i == 55 {
        25
    } else if i == 56 {
        30
    } else if i == 57 {
        13
    } else if i == 58 {
        32
    } else {
        29
    }
}

proof fn lemma_row_len(j: int)
    requires
        0 <= j < instance_table().len(),
    ensures
        instance_row(j).0@.len() == row_len(j),
{
    if j == 0 {
        reveal_strlit("xrGetInstanceProcAddr");
        assert("xrGetInstanceProcAddr"@.len() == 21);
    } else if j == 1 {
        reveal_strlit("xrCreateInstance");
        assert("xrCreateInstance"@.len() == 16);
    } else if j == 2 {
        reveal_strlit("xrDestroyInstance");
        assert("xrDestroyInstance"@.len() == 17);
    } else if j == 3 {
        reveal_strlit("xrEnumerateInstanceExtensionProperties");
        assert("xrEnumerateInstanceExtensionProperties"@.len() == 38);
    } else if j == 4 {
        reveal_strlit("xrEnumerateApiLayerProperties");
        assert("xrEnumerateApiLayerProperties"@.len() == 29);
    } else if j == 5 {
        reveal_strlit("xrGetVulkanInstanceExtensionsKHR");
        assert("xrGetVulkanInstanceExtensionsKHR"@.len() == 32);
    } else if j == 6 {
        reveal_strlit("xrGetVulkanDeviceExtensionsKHR");
        assert("xrGetVulkanDeviceExtensionsKHR"@.len() == 30);
    } else if j == 7 {
        reveal_strlit("xrGetVulkanGraphicsDeviceKHR");
        assert("xrGetVulkanGraphicsDeviceKHR"@.len() == 28);
    } else if j == 8 {
        reveal_strlit("xrGetVulkanGraphicsRequirementsKHR");
        assert("xrGetVulkanGraphicsRequirementsKHR"@.len() == 34);
    } else if j == 9 {
        reveal_strlit("xrGetSystem");
        assert("xrGetSystem"@.len() == 11);
    } else if j == 10 {
        reveal_strlit("xrCreateSession");
        assert("xrCreateSession"@.len() == 15);
    } else if j == 11 {
        reveal_strlit("xrDestroySession");
        assert("xrDestroySession"@.len() == 16);
    } else if j == 12 {
        reveal_strlit("xrBeginSession");
        assert("xrBeginSession"@.len() == 14);
    } else if j == 13 {
        reveal_strlit("xrEndSession");
        assert("xrEndSession"@.len() == 12);
    } else if j == 14 {
        reveal_strlit("xrCreateReferenceSpace");
        assert("xrCreateReferenceSpace"@.len() == 22);
    } else if j == 15 {
        reveal_strlit("xrPollEvent");
        assert("xrPollEvent"@.len() == 11);
    } else if j == 16 {
        reveal_strlit("xrDestroySpace");
        assert("xrDestroySpace"@.len() == 14);
    } else if j == 17 {
        reveal_strlit("xrLocateViews");
        assert("xrLocateViews"@.len() == 13);
    } else if j == 18 {
        reveal_strlit("xrRequestExitSession");
        assert("xrRequestExitSession"@.len() == 20);
    } else if j == 19 {
        reveal_strlit("xrResultToString");
        assert("xrResultToString"@.len() == 16);
    } else if j == 20 {
        reveal_strlit("xrStructureTypeToString");
        assert("xrStructureTypeToString"@.len() == 23);
    } else if j == 21 {
        reveal_strlit("xrGetInstanceProperties");
        assert("xrGetInstanceProperties"@.len() == 23);
    } else if j == 22 {
        reveal_strlit("xrGetSystemProperties");
        assert("xrGetSystemProperties"@.len() == 21);
    } else if j == 23 {
        reveal_strlit("xrCreateSwapchain");
        assert("xrCreateSwapchain"@.len() == 17);
    } else if j == 24 {
        reveal_strlit("xrDestroySwapchain");
        assert("xrDestroySwapchain"@.len() == 18);
    } else if j == 25 {
        reveal_strlit("xrEnumerateSwapchainImages");
        assert("xrEnumerateSwapchainImages"@.len() == 26);
    } else if j == 26 {
        reveal_strlit("xrAcquireSwapchainImage");
        assert("xrAcquireSwapchainImage"@.len() == 23);
    } else if j == 27 {
        reveal_strlit("xrWaitSwapchainImage");
        assert("xrWaitSwapchainImage"@.len() == 20);
    } else if j == 28 {
        reveal_strlit("xrReleaseSwapchainImage");
        assert("xrReleaseSwapchainImage"@.len() == 23);
    } else if j == 29 {
        reveal_strlit("xrEnumerateSwapchainFormats");
        assert("xrEnumerateSwapchainFormats"@.len() == 27);
    } else if j == 30 {
        reveal_strlit("xrEnumerateReferenceSpaces");
        assert("xrEnumerateReferenceSpaces"@.len() == 26);
    } else if j == 31 {
        reveal_strlit("xrCreateActionSpace");
        assert("xrCreateActionSpace"@.len() == 19);
    } else if j == 32 {
        reveal_strlit("xrLocateSpace");
        assert("xrLocateSpace"@.len() == 13);
    } else if j == 33 {
        reveal_strlit("xrEnumerateViewConfigurations");
        assert("xrEnumerateViewConfigurations"@.len() == 29);
    } else if j == 34 {
        reveal_strlit("xrEnumerateEnvironmentBlendModes");
        assert("xrEnumerateEnvironmentBlendModes"@.len() == 32);
    } else if j == 35 {
        reveal_strlit("xrGetViewConfigurationProperties");
        assert("xrGetViewConfigurationProperties"@.len() == 32);
    } else if j == 36 {
        reveal_strlit("xrEnumerateViewConfigurationViews");
        assert("xrEnumerateViewConfigurationViews"@.len() == 33);
    } else if j == 37 {
        reveal_strlit("xrBeginFrame");
        assert("xrBeginFrame"@.len() == 12);
    } else if j == 38 {
        reveal_strlit("xrEndFrame");
        assert("xrEndFrame"@.len() == 10);
    } else if j == 39 {
        reveal_strlit("xrWaitFrame");
        assert("xrWaitFrame"@.len() == 11);
    } else if j == 40 {
        reveal_strlit("xrApplyHapticFeedback");
        assert("xrApplyHapticFeedback"@.len() == 21);
    } else if j == 41 {
        reveal_strlit("xrStopHapticFeedback");
        assert("xrStopHapticFeedback"@.len() == 20);
    } else if j == 42 {
        reveal_strlit("xrPollEvent");
        assert("xrPollEvent"@.len() == 11);
    } else if j == 43 {
        reveal_strlit("xrStringToPath");
        assert("xrStringToPath"@.len() == 14);
    } else if j == 44 {
        reveal_strlit("xrPathToString");
        assert("xrPathToString"@.len() == 14);
    } else if j == 45 {
        reveal_strlit("xrGetReferenceSpaceBoundsRect");
        assert("xrGetReferenceSpaceBoundsRect"@.len() == 29);
    } else if j == 46 {
        reveal_strlit("xrGetActionStateBoolean");
        assert("xrGetActionStateBoolean"@.len() == 23);
    } else if j == 47 {
        reveal_strlit("xrGetActionStateFloat");
        assert("xrGetActionStateFloat"@.len() == 21);
    } else if j == 48 {
        reveal_strlit("xrGetActionStateVector2f");
        assert("xrGetActionStateVector2f"@.len() == 24);
    } else if j == 49 {
        reveal_strlit("xrGetActionStatePose");
        assert("xrGetActionStatePose"@.len() == 20);
    } else if j == 50 {
        reveal_strlit("xrCreateActionSet");
        assert("xrCreateActionSet"@.len() == 17);
    } else if j == 51 {
        reveal_strlit("xrDestroyActionSet");
        assert("xrDestroyActionSet"@.len() == 18);
    } else if j == 52 {
        reveal_strlit("xrCreateAction");
        assert("xrCreateAction"@.len() == 14);
    } else if j == 53 {
        reveal_strlit("xrDestroyAction");
        assert("xrDestroyAction"@.len() == 15);
    } else if j == 54 {
        reveal_strlit("xrSuggestInteractionProfileBindings");
        assert("xrSuggestInteractionProfileBindings"@.len() == 35);
    } else if j == 55 {
        reveal_strlit("xrAttachSessionActionSets");
        assert("xrAttachSessionActionSets"@.len() == 25);
    } else if j == 56 {
        reveal_strlit("xrGetCurrentInteractionProfile");
        assert("xrGetCurrentInteractionProfile"@.len() == 30);
    } else if j == 57 {
        reveal_strlit("xrSyncActions");
        assert("xrSyncActions"@.len() == 13);
    } else if j == 58 {
        reveal_strlit("xrEnumerateBoundSourcesForAction");
        assert("xrEnumerateBoundSourcesForAction"@.len() == 32);
    } else if j == 59 {
        reveal_strlit("xrGetInputSourceLocalizedName");
        assert("xrGetInputSourceLocalizedName"@.len() == 29);
    }
}

/// A name that no earlier row of the same length carries resolves to the
/// entry of its row.
proof fn lemma_lookup_row(name: Seq<char>, k: int)
    requires
        0 <= k < instance_table().len(),
        instance_row(k).0@ == name,
        forall|j: int| 0 <= j < k && row_len(j) == name.len() ==> #[trigger] instance_row(j).0@ != name,
    ensures
        table_lookup(instance_table(), name) == Some(instance_row(k).1),
{
    assert forall|j: int| 0 <= j < k implies #[trigger] instance_table()[j].0@ != name by {
        lemma_row_len(j);
    }
    lemma_row_len(k);
    lemma_lookup_first(instance_table(), name, k);
}

/// Without an instance, the runtime serves instance creation itself and
/// stubs for the two enumerations, and nothing else.
pub proof fn law_null_instance_entry_points(m: Seq<Obj>, name: Seq<char>)
    ensures
        proc_addr(m, 0, "xrCreateInstance"@) == Ok::<ProcEntry, XrError>(
            ProcEntry::Implemented(XrFunction::CreateInstance),
        ),
        proc_addr(m, 0, "xrEnumerateInstanceExtensionProperties"@) == Ok::<ProcEntry, XrError>(
            ProcEntry::Stub(XrFunction::EnumerateInstanceExtensionProperties),
        ),
        proc_addr(m, 0, "xrEnumerateApiLayerProperties"@) == Ok::<ProcEntry, XrError>(
            ProcEntry::Stub(XrFunction::EnumerateApiLayerProperties),
        ),
        name != "xrCreateInstance"@ && name != "xrEnumerateInstanceExtensionProperties"@ && name
            != "xrEnumerateApiLayerProperties"@ ==> proc_addr(m, 0, name) == Err::<ProcEntry, XrError>(
            XrError::HandleInvalid,
        ),
{
    reveal_strlit("xrCreateInstance");
    reveal_strlit("xrEnumerateInstanceExtensionProperties");
    reveal_strlit("xrEnumerateApiLayerProperties");
    assert("xrCreateInstance"@.len() == 16);
    assert("xrEnumerateInstanceExtensionProperties"@.len() == 38);
    assert("xrEnumerateApiLayerProperties"@.len() == 29);
    reveal_with_fuel(table_lookup, 4);
}

/// For a live instance, every entry point that the runtime implements
/// resolves, by its OpenXR name, to its own implementation.
pub proof fn law_implemented_entry_points(m: Seq<Obj>, instance: u64)
    requires
        is_instance(m, instance),
    ensures
        proc_addr(m, instance, "xrGetInstanceProcAddr"@) == Ok::<ProcEntry, XrError>(ProcEntry::Implemented(XrFunction::GetInstanceProcAddr)),
        proc_addr(m, instance, "xrCreateInstance"@) == Ok::<ProcEntry, XrError>(ProcEntry::Implemented(XrFunction::CreateInstance)),
        proc_addr(m, instance, "xrDestroyInstance"@) == Ok::<ProcEntry, XrError>(ProcEntry::Implemented(XrFunction::DestroyInstance)),
        proc_addr(m, instance, "xrGetVulkanInstanceExtensionsKHR"@) == Ok::<ProcEntry, XrError>(ProcEntry::Implemented(XrFunction::GetVulkanInstanceExtensionsKHR)),
        proc_addr(m, instance, "xrGetVulkanDeviceExtensionsKHR"@) == Ok::<ProcEntry, XrError>(ProcEntry::Implemented(XrFunction::GetVulkanDeviceExtensionsKHR)),
        proc_addr(m, instance, "xrGetVulkanGraphicsDeviceKHR"@) == Ok::<ProcEntry, XrError>(ProcEntry::Implemented(XrFunction::GetVulkanGraphicsDeviceKHR)),
        proc_addr(m, instance, "xrGetVulkanGraphicsRequirementsKHR"@) == Ok::<ProcEntry, XrError>(ProcEntry::Implemented(XrFunction::GetVulkanGraphicsRequirementsKHR)),
        proc_addr(m, instance, "xrGetSystem"@) == Ok::<ProcEntry, XrError>(ProcEntry::Implemented(XrFunction::GetSystem)),
        proc_addr(m, instance, "xrCreateSession"@) == Ok::<ProcEntry, XrError>(ProcEntry::Implemented(XrFunction::CreateSession)),
        proc_addr(m, instance, "xrDestroySession"@) == Ok::<ProcEntry, XrError>(ProcEntry::Implemented(XrFunction::DestroySession)),
        proc_addr(m, instance, "xrBeginSession"@) == Ok::<ProcEntry, XrError>(ProcEntry::Implemented(XrFunction::BeginSession)),
        proc_addr(m, instance, "xrEndSession"@) == Ok::<ProcEntry, XrError>(ProcEntry::Implemented(XrFunction::EndSession)),
        proc_addr(m, instance, "xrCreateReferenceSpace"@) == Ok::<ProcEntry, XrError>(ProcEntry::Implemented(XrFunction::CreateReferenceSpace)),
        proc_addr(m, instance, "xrPollEvent"@) == Ok::<ProcEntry, XrError>(ProcEntry::Implemented(XrFunction::PollEvent)),
        proc_addr(m, instance, "xrDestroySpace"@) == Ok::<ProcEntry, XrError>(ProcEntry::Implemented(XrFunction::DestroySpace)),
        proc_addr(m, instance, "xrRequestExitSession"@) == Ok::<ProcEntry, XrError>(ProcEntry::Implemented(XrFunction::RequestExitSession)),
        proc_addr(m, instance, "xrCreateSwapchain"@) == Ok::<ProcEntry, XrError>(ProcEntry::Implemented(XrFunction::CreateSwapchain)),
        proc_addr(m, instance, "xrDestroySwapchain"@) == Ok::<ProcEntry, XrError>(ProcEntry::Implemented(XrFunction::DestroySwapchain)),
        proc_addr(m, instance, "xrEnumerateSwapchainImages"@) == Ok::<ProcEntry, XrError>(ProcEntry::Implemented(XrFunction::EnumerateSwapchainImages)),
        proc_addr(m, instance, "xrAcquireSwapchainImage"@) == Ok::<ProcEntry, XrError>(ProcEntry::Implemented(XrFunction::AcquireSwapchainImage)),
        proc_addr(m, instance, "xrWaitSwapchainImage"@) == Ok::<ProcEntry, XrError>(ProcEntry::Implemented(XrFunction::WaitSwapchainImage)),
        proc_addr(m, instance, "xrReleaseSwapchainImage"@) == Ok::<ProcEntry, XrError>(ProcEntry::Implemented(XrFunction::ReleaseSwapchainImage)),
        proc_addr(m, instance, "xrCreateActionSpace"@) == Ok::<ProcEntry, XrError>(ProcEntry::Implemented(XrFunction::CreateActionSpace)),
        proc_addr(m, instance, "xrLocateSpace"@) == Ok::<ProcEntry, XrError>(ProcEntry::Implemented(XrFunction::LocateSpace)),
        proc_addr(m, instance, "xrBeginFrame"@) == Ok::<ProcEntry, XrError>(ProcEntry::Implemented(XrFunction::BeginFrame)),
        proc_addr(m, instance, "xrEndFrame"@) == Ok::<ProcEntry, XrError>(ProcEntry::Implemented(XrFunction::EndFrame)),
        proc_addr(m, instance, "xrWaitFrame"@) == Ok::<ProcEntry, XrError>(ProcEntry::Implemented(XrFunction::WaitFrame)),
        proc_addr(m, instance, "xrStringToPath"@) == Ok::<ProcEntry, XrError>(ProcEntry::Implemented(XrFunction::StringToPath)),
        proc_addr(m, instance, "xrGetActionStateBoolean"@) == Ok::<ProcEntry, XrError>(ProcEntry::Implemented(XrFunction::GetActionStateBoolean)),
        proc_addr(m, instance, "xrGetActionStateFloat"@) == Ok::<ProcEntry, XrError>(ProcEntry::Implemented(XrFunction::GetActionStateFloat)),
        proc_addr(m, instance, "xrCreateActionSet"@) == Ok::<ProcEntry, XrError>(ProcEntry::Implemented(XrFunction::CreateActionSet)),
        proc_addr(m, instance, "xrDestroyActionSet"@) == Ok::<ProcEntry, XrError>(ProcEntry::Implemented(XrFunction::DestroyActionSet)),
        proc_addr(m, instance, "xrCreateAction"@) == Ok::<ProcEntry, XrError>(ProcEntry::Implemented(XrFunction::CreateAction)),
        proc_addr(m, instance, "xrDestroyAction"@) == Ok::<ProcEntry, XrError>(ProcEntry::Implemented(XrFunction::DestroyAction)),
        proc_addr(m, instance, "xrSuggestInteractionProfileBindings"@) == Ok::<ProcEntry, XrError>(ProcEntry::Implemented(XrFunction::SuggestInteractionProfileBindings)),
        proc_addr(m, instance, "xrAttachSessionActionSets"@) == Ok::<ProcEntry, XrError>(ProcEntry::Implemented(XrFunction::AttachSessionActionSets)),
        proc_addr(m, instance, "xrSyncActions"@) == Ok::<ProcEntry, XrError>(ProcEntry::Implemented(XrFunction::SyncActions)),
{
    reveal_strlit("xrGetInstanceProcAddr");
    lemma_lookup_row("xrGetInstanceProcAddr"@, 0);
    reveal_strlit("xrCreateInstance");
    lemma_lookup_row("xrCreateInstance"@, 1);
    reveal_strlit("xrDestroyInstance");
    lemma_lookup_row("xrDestroyInstance"@, 2);
    reveal_strlit("xrGetVulkanInstanceExtensionsKHR");
    lemma_lookup_row("xrGetVulkanInstanceExtensionsKHR"@, 5);
    reveal_strlit("xrGetVulkanDeviceExtensionsKHR");
    lemma_lookup_row("xrGetVulkanDeviceExtensionsKHR"@, 6);
    reveal_strlit("xrGetVulkanGraphicsDeviceKHR");
    lemma_lookup_row("xrGetVulkanGraphicsDeviceKHR"@, 7);
    reveal_strlit("xrGetVulkanGraphicsRequirementsKHR");
    lemma_lookup_row("xrGetVulkanGraphicsRequirementsKHR"@, 8);
    reveal_strlit("xrGetSystem");
    lemma_lookup_row("xrGetSystem"@, 9);
    reveal_strlit("xrCreateSession");
    lemma_lookup_row("xrCreateSession"@, 10);
    reveal_strlit("xrDestroySession");
    assert forall|j: int| 0 <= j < 11 && row_len(j) == "xrDestroySession"@.len() implies #[trigger] instance_row(j).0@ != "xrDestroySession"@ by {
        if j == 1 {
            reveal_strlit("xrCreateInstance");
            assert("xrCreateInstance"@[2] != "xrDestroySession"@[2]);
        }
    }
    lemma_lookup_row("xrDestroySession"@, 11);
    reveal_strlit("xrBeginSession");
    lemma_lookup_row("xrBeginSession"@, 12);
    reveal_strlit("xrEndSession");
    lemma_lookup_row("xrEndSession"@, 13);
    reveal_strlit("xrCreateReferenceSpace");
    lemma_lookup_row("xrCreateReferenceSpace"@, 14);
    reveal_strlit("xrPollEvent");
    assert forall|j: int| 0 <= j < 15 && row_len(j) == "xrPollEvent"@.len() implies #[trigger] instance_row(j).0@ != "xrPollEvent"@ by {
        if j == 9 {
            reveal_strlit("xrGetSystem");
            assert("xrGetSystem"@[2] != "xrPollEvent"@[2]);
        }
    }
    lemma_lookup_row("xrPollEvent"@, 15);
    reveal_strlit("xrDestroySpace");
    assert forall|j: int| 0 <= j < 16 && row_len(j) == "xrDestroySpace"@.len() implies #[trigger] instance_row(j).0@ != "xrDestroySpace"@ by {
        if j == 12 {
            reveal_strlit("xrBeginSession");
            assert("xrBeginSession"@[2] != "xrDestroySpace"@[2]);
        }
    }
    lemma_lookup_row("xrDestroySpace"@, 16);
    reveal_strlit("xrRequestExitSession");
    lemma_lookup_row("xrRequestExitSession"@, 18);
    reveal_strlit("xrCreateSwapchain");
    assert forall|j: int| 0 <= j < 23 && row_len(j) == "xrCreateSwapchain"@.len() implies #[trigger] instance_row(j).0@ != "xrCreateSwapchain"@ by {
        if j == 2 {
            reveal_strlit("xrDestroyInstance");
            assert("xrDestroyInstance"@[2] != "xrCreateSwapchain"@[2]);
        }
    }
    lemma_lookup_row("xrCreateSwapchain"@, 23);
    reveal_strlit("xrDestroySwapchain");
    lemma_lookup_row("xrDestroySwapchain"@, 24);
    reveal_strlit("xrEnumerateSwapchainImages");
    lemma_lookup_row("xrEnumerateSwapchainImages"@, 25);
    reveal_strlit("xrAcquireSwapchainImage");
    assert forall|j: int| 0 <= j < 26 && row_len(j) == "xrAcquireSwapchainImage"@.len() implies #[trigger] instance_row(j).0@ != "xrAcquireSwapchainImage"@ by {
        if j == 20 {
            reveal_strlit("xrStructureTypeToString");
            assert("xrStructureTypeToString"@[2] != "xrAcquireSwapchainImage"@[2]);
        } else if j == 21 {
            reveal_strlit("xrGetInstanceProperties");
            assert("xrGetInstanceProperties"@[2] != "xrAcquireSwapchainImage"@[2]);
        }
    }
    lemma_lookup_row("xrAcquireSwapchainImage"@, 26);
    reveal_strlit("xrWaitSwapchainImage");
    assert forall|j: int| 0 <= j < 27 && row_len(j) == "xrWaitSwapchainImage"@.len() implies #[trigger] instance_row(j).0@ != "xrWaitSwapchainImage"@ by {
        if j == 18 {
            reveal_strlit("xrRequestExitSession");
            assert("xrRequestExitSession"@[2] != "xrWaitSwapchainImage"@[2]);
        }
    }
    lemma_lookup_row("xrWaitSwapchainImage"@, 27);
    reveal_strlit("xrReleaseSwapchainImage");
    assert forall|j: int| 0 <= j < 28 && row_len(j) == "xrReleaseSwapchainImage"@.len() implies #[trigger] instance_row(j).0@ != "xrReleaseSwapchainImage"@ by {
        if j == 20 {
            reveal_strlit("xrStructureTypeToString");
            assert("xrStructureTypeToString"@[2] != "xrReleaseSwapchainImage"@[2]);
        } else if j == 21 {
            reveal_strlit("xrGetInstanceProperties");
            assert("xrGetInstanceProperties"@[2] != "xrReleaseSwapchainImage"@[2]);
        } else if j == 26 {
            reveal_strlit("xrAcquireSwapchainImage");
            assert("xrAcquireSwapchainImage"@[2] != "xrReleaseSwapchainImage"@[2]);
        }
    }
    lemma_lookup_row("xrReleaseSwapchainImage"@, 28);
    reveal_strlit("xrCreateActionSpace");
    lemma_lookup_row("xrCreateActionSpace"@, 31);
    reveal_strlit("xrLocateSpace");
    assert forall|j: int| 0 <= j < 32 && row_len(j) == "xrLocateSpace"@.len() implies #[trigger] instance_row(j).0@ != "xrLocateSpace"@ by {
        if j == 17 {
            reveal_strlit("xrLocateViews");
            assert("xrLocateViews"@[8] != "xrLocateSpace"@[8]);
        }
    }
    lemma_lookup_row("xrLocateSpace"@, 32);
    reveal_strlit("xrBeginFrame");
    assert forall|j: int| 0 <= j < 37 && row_len(j) == "xrBeginFrame"@.len() implies #[trigger] instance_row(j).0@ != "xrBeginFrame"@ by {
        if j == 13 {
            reveal_strlit("xrEndSession");
            assert("xrEndSession"@[2] != "xrBeginFrame"@[2]);
        }
    }
    lemma_lookup_row("xrBeginFrame"@, 37);
    reveal_strlit("xrEndFrame");
    lemma_lookup_row("xrEndFrame"@, 38);
    reveal_strlit("xrWaitFrame");
    assert forall|j: int| 0 <= j < 39 && row_len(j) == "xrWaitFrame"@.len() implies #[trigger] instance_row(j).0@ != "xrWaitFrame"@ by {
        if j == 9 {
            reveal_strlit("xrGetSystem");
            assert("xrGetSystem"@[2] != "xrWaitFrame"@[2]);
        } else if j == 15 {
            reveal_strlit("xrPollEvent");
            assert("xrPollEvent"@[2] != "xrWaitFrame"@[2]);
        }
    }
    lemma_lookup_row("xrWaitFrame"@, 39);
    reveal_strlit("xrStringToPath");
    assert forall|j: int| 0 <= j < 43 && row_len(j) == "xrStringToPath"@.len() implies #[trigger] instance_row(j).0@ != "xrStringToPath"@ by {
        if j == 12 {
            reveal_strlit("xrBeginSession");
            assert("xrBeginSession"@[2] != "xrStringToPath"@[2]);
        } else if j == 16 {
            reveal_strlit("xrDestroySpace");
            assert("xrDestroySpace"@[2] != "xrStringToPath"@[2]);
        }
    }
    lemma_lookup_row("xrStringToPath"@, 43);
    reveal_strlit("xrGetActionStateBoolean");
    assert forall|j: int| 0 <= j < 46 && row_len(j) == "xrGetActionStateBoolean"@.len() implies #[trigger] instance_row(j).0@ != "xrGetActionStateBoolean"@ by {
        if j == 20 {
            reveal_strlit("xrStructureTypeToString");
            assert("xrStructureTypeToString"@[2] != "xrGetActionStateBoolean"@[2]);
        } else if j == 21 {
            reveal_strlit("xrGetInstanceProperties");
            assert("xrGetInstanceProperties"@[5] != "xrGetActionStateBoolean"@[5]);
        } else if j == 26 {
            reveal_strlit("xrAcquireSwapchainImage");
            assert("xrAcquireSwapchainImage"@[2] != "xrGetActionStateBoolean"@[2]);
        } else if j == 28 {
            reveal_strlit("xrReleaseSwapchainImage");
            assert("xrReleaseSwapchainImage"@[2] != "xrGetActionStateBoolean"@[2]);
        }
    }
    lemma_lookup_row("xrGetActionStateBoolean"@, 46);
    reveal_strlit("xrGetActionStateFloat");
    assert forall|j: int| 0 <= j < 47 && row_len(j) == "xrGetActionStateFloat"@.len() implies #[trigger] instance_row(j).0@ != "xrGetActionStateFloat"@ by {
        if j == 0 {
            reveal_strlit("xrGetInstanceProcAddr");
            assert("xrGetInstanceProcAddr"@[5] != "xrGetActionStateFloat"@[5]);
        } else if j == 22 {
            reveal_strlit("xrGetSystemProperties");
            assert("xrGetSystemProperties"@[5] != "xrGetActionStateFloat"@[5]);
        } else if j == 40 {
            reveal_strlit("xrApplyHapticFeedback");
            assert("xrApplyHapticFeedback"@[2] != "xrGetActionStateFloat"@[2]);
        }
    }
    lemma_lookup_row("xrGetActionStateFloat"@, 47);
    reveal_strlit("xrCreateActionSet");
    assert forall|j: int| 0 <= j < 50 && row_len(j) == "xrCreateActionSet"@.len() implies #[trigger] instance_row(j).0@ != "xrCreateActionSet"@ by {
        if j == 2 {
            reveal_strlit("xrDestroyInstance");
            assert("xrDestroyInstance"@[2] != "xrCreateActionSet"@[2]);
        } else if j == 23 {
            reveal_strlit("xrCreateSwapchain");
            assert("xrCreateSwapchain"@[8] != "xrCreateActionSet"@[8]);
        }
    }
    lemma_lookup_row("xrCreateActionSet"@, 50);
    reveal_strlit("xrDestroyActionSet");
    assert forall|j: int| 0 <= j < 51 && row_len(j) == "xrDestroyActionSet"@.len() implies #[trigger] instance_row(j).0@ != "xrDestroyActionSet"@ by {
        if j == 24 {
            reveal_strlit("xrDestroySwapchain");
            assert("xrDestroySwapchain"@[9] != "xrDestroyActionSet"@[9]);
        }
    }
    lemma_lookup_row("xrDestroyActionSet"@, 51);
    reveal_strlit("xrCreateAction");
    assert forall|j: int| 0 <= j < 52 && row_len(j) == "xrCreateAction"@.len() implies #[trigger] instance_row(j).0@ != "xrCreateAction"@ by {
        if j == 12 {
            reveal_strlit("xrBeginSession");
            assert("xrBeginSession"@[2] != "xrCreateAction"@[2]);
        } else if j == 16 {
            reveal_strlit("xrDestroySpace");
            assert("xrDestroySpace"@[2] != "xrCreateAction"@[2]);
        } else if j == 43 {
            reveal_strlit("xrStringToPath");
            assert("xrStringToPath"@[2] != "xrCreateAction"@[2]);
        } else if j == 44 {
            reveal_strlit("xrPathToString");
            assert("xrPathToString"@[2] != "xrCreateAction"@[2]);
        }
    }
    lemma_lookup_row("xrCreateAction"@, 52);
    reveal_strlit("xrDestroyAction");
    assert forall|j: int| 0 <= j < 53 && row_len(j) == "xrDestroyAction"@.len() implies #[trigger] instance_row(j).0@ != "xrDestroyAction"@ by {
        if j == 10 {
            reveal_strlit("xrCreateSession");
            assert("xrCreateSession"@[2] != "xrDestroyAction"@[2]);
        }
    }
    lemma_lookup_row("xrDestroyAction"@, 53);
    reveal_strlit("xrSuggestInteractionProfileBindings");
    lemma_lookup_row("xrSuggestInteractionProfileBindings"@, 54);
    reveal_strlit("xrAttachSessionActionSets");
    lemma_lookup_row("xrAttachSessionActionSets"@, 55);
    reveal_strlit("xrSyncActions");
    assert forall|j: int| 0 <= j < 57 && row_len(j) == "xrSyncActions"@.len() implies #[trigger] instance_row(j).0@ != "xrSyncActions"@ by {
        if j == 17 {
            reveal_strlit("xrLocateViews");
            assert("xrLocateViews"@[2] != "xrSyncActions"@[2]);
        } else if j == 32 {
            reveal_strlit("xrLocateSpace");
            assert("xrLocateSpace"@[2] != "xrSyncActions"@[2]);
        }
    }
    lemma_lookup_row("xrSyncActions"@, 57);
}

/// For a live instance, every entry point that the runtime only stubs
/// resolves, by its OpenXR name, to the stub of that same function.
pub proof fn law_stub_entry_points(m: Seq<Obj>, instance: u64)
    requires
        is_instance(m, instance),
    ensures
        proc_addr(m, instance, "xrEnumerateInstanceExtensionProperties"@) == Ok::<ProcEntry, XrError>(ProcEntry::Stub(XrFunction::EnumerateInstanceExtensionProperties)),
        proc_addr(m, instance, "xrEnumerateApiLayerProperties"@) == Ok::<ProcEntry, XrError>(ProcEntry::Stub(XrFunction::EnumerateApiLayerProperties)),
        proc_addr(m, instance, "xrLocateViews"@) == Ok::<ProcEntry, XrError>(ProcEntry::Stub(XrFunction::LocateViews)),
        proc_addr(m, instance, "xrResultToString"@) == Ok::<ProcEntry, XrError>(ProcEntry::Stub(XrFunction::ResultToString)),
        proc_addr(m, instance, "xrStructureTypeToString"@) == Ok::<ProcEntry, XrError>(ProcEntry::Stub(XrFunction::StructureTypeToString)),
        proc_addr(m, instance, "xrGetInstanceProperties"@) == Ok::<ProcEntry, XrError>(ProcEntry::Stub(XrFunction::GetInstanceProperties)),
        proc_addr(m, instance, "xrGetSystemProperties"@) == Ok::<ProcEntry, XrError>(ProcEntry::Stub(XrFunction::GetSystemProperties)),
        proc_addr(m, instance, "xrEnumerateSwapchainFormats"@) == Ok::<ProcEntry, XrError>(ProcEntry::Stub(XrFunction::EnumerateSwapchainFormats)),
        proc_addr(m, instance, "xrEnumerateReferenceSpaces"@) == Ok::<ProcEntry, XrError>(ProcEntry::Stub(XrFunction::EnumerateReferenceSpaces)),
        proc_addr(m, instance, "xrEnumerateViewConfigurations"@) == Ok::<ProcEntry, XrError>(ProcEntry::Stub(XrFunction::EnumerateViewConfigurations)),
        proc_addr(m, instance, "xrEnumerateEnvironmentBlendModes"@) == Ok::<ProcEntry, XrError>(ProcEntry::Stub(XrFunction::EnumerateEnvironmentBlendModes)),
        proc_addr(m, instance, "xrGetViewConfigurationProperties"@) == Ok::<ProcEntry, XrError>(ProcEntry::Stub(XrFunction::GetViewConfigurationProperties)),
        proc_addr(m, instance, "xrEnumerateViewConfigurationViews"@) == Ok::<ProcEntry, XrError>(ProcEntry::Stub(XrFunction::EnumerateViewConfigurationViews)),
        proc_addr(m, instance, "xrApplyHapticFeedback"@) == Ok::<ProcEntry, XrError>(ProcEntry::Stub(XrFunction::ApplyHapticFeedback)),
        proc_addr(m, instance, "xrStopHapticFeedback"@) == Ok::<ProcEntry, XrError>(ProcEntry::Stub(XrFunction::StopHapticFeedback)),
        proc_addr(m, instance, "xrPathToString"@) == Ok::<ProcEntry, XrError>(ProcEntry::Stub(XrFunction::PathToString)),
        proc_addr(m, instance, "xrGetReferenceSpaceBoundsRect"@) == Ok::<ProcEntry, XrError>(ProcEntry::Stub(XrFunction::GetReferenceSpaceBoundsRect)),
        proc_addr(m, instance, "xrGetActionStateVector2f"@) == Ok::<ProcEntry, XrError>(ProcEntry::Stub(XrFunction::GetActionStateVector2f)),
        proc_addr(m, instance, "xrGetActionStatePose"@) == Ok::<ProcEntry, XrError>(ProcEntry::Stub(XrFunction::GetActionStatePose)),
        proc_addr(m, instance, "xrGetCurrentInteractionProfile"@) == Ok::<ProcEntry, XrError>(ProcEntry::Stub(XrFunction::GetCurrentInteractionProfile)),
        proc_addr(m, instance, "xrEnumerateBoundSourcesForAction"@) == Ok::<ProcEntry, XrError>(ProcEntry::Stub(XrFunction::EnumerateBoundSourcesForAction)),
        proc_addr(m, instance, "xrGetInputSourceLocalizedName"@) == Ok::<ProcEntry, XrError>(ProcEntry::Stub(XrFunction::GetInputSourceLocalizedName)),
{
    reveal_strlit("xrEnumerateInstanceExtensionProperties");
    lemma_lookup_row("xrEnumerateInstanceExtensionProperties"@, 3);
    reveal_strlit("xrEnumerateApiLayerProperties");
    lemma_lookup_row("xrEnumerateApiLayerProperties"@, 4);
    reveal_strlit("xrLocateViews");
    lemma_lookup_row("xrLocateViews"@, 17);
    reveal_strlit("xrResultToString");
    assert forall|j: int| 0 <= j < 19 && row_len(j) == "xrResultToString"@.len() implies #[trigger] instance_row(j).0@ != "xrResultToString"@ by {
        if j == 1 {
            reveal_strlit("xrCreateInstance");
            assert("xrCreateInstance"@[2] != "xrResultToString"@[2]);
        } else if j == 11 {
            reveal_strlit("xrDestroySession");
            assert("xrDestroySession"@[2] != "xrResultToString"@[2]);
        }
    }
    lemma_lookup_row("xrResultToString"@, 19);
    reveal_strlit("xrStructureTypeToString");
    lemma_lookup_row("xrStructureTypeToString"@, 20);
    reveal_strlit("xrGetInstanceProperties");
    assert forall|j: int| 0 <= j < 21 && row_len(j) == "xrGetInstanceProperties"@.len() implies #[trigger] instance_row(j).0@ != "xrGetInstanceProperties"@ by {
        if j == 20 {
            reveal_strlit("xrStructureTypeToString");
            assert("xrStructureTypeToString"@[2] != "xrGetInstanceProperties"@[2]);
        }
    }
    lemma_lookup_row("xrGetInstanceProperties"@, 21);
    reveal_strlit("xrGetSystemProperties");
    assert forall|j: int| 0 <= j < 22 && row_len(j) == "xrGetSystemProperties"@.len() implies #[trigger] instance_row(j).0@ != "xrGetSystemProperties"@ by {
        if j == 0 {
            reveal_strlit("xrGetInstanceProcAddr");
            assert("xrGetInstanceProcAddr"@[5] != "xrGetSystemProperties"@[5]);
        }
    }
    lemma_lookup_row("xrGetSystemProperties"@, 22);
    reveal_strlit("xrEnumerateSwapchainFormats");
    lemma_lookup_row("xrEnumerateSwapchainFormats"@, 29);
    reveal_strlit("xrEnumerateReferenceSpaces");
    assert forall|j: int| 0 <= j < 30 && row_len(j) == "xrEnumerateReferenceSpaces"@.len() implies #[trigger] instance_row(j).0@ != "xrEnumerateReferenceSpaces"@ by {
        if j == 25 {
            reveal_strlit("xrEnumerateSwapchainImages");
            assert("xrEnumerateSwapchainImages"@[11] != "xrEnumerateReferenceSpaces"@[11]);
        }
    }
    lemma_lookup_row("xrEnumerateReferenceSpaces"@, 30);
    reveal_strlit("xrEnumerateViewConfigurations");
    assert forall|j: int| 0 <= j < 33 && row_len(j) == "xrEnumerateViewConfigurations"@.len() implies #[trigger] instance_row(j).0@ != "xrEnumerateViewConfigurations"@ by {
        if j == 4 {
            reveal_strlit("xrEnumerateApiLayerProperties");
            assert("xrEnumerateApiLayerProperties"@[11] != "xrEnumerateViewConfigurations"@[11]);
        }
    }
    lemma_lookup_row("xrEnumerateViewConfigurations"@, 33);
    reveal_strlit("xrEnumerateEnvironmentBlendModes");
    assert forall|j: int| 0 <= j < 34 && row_len(j) == "xrEnumerateEnvironmentBlendModes"@.len() implies #[trigger] instance_row(j).0@ != "xrEnumerateEnvironmentBlendModes"@ by {
        if j == 5 {
            reveal_strlit("xrGetVulkanInstanceExtensionsKHR");
            assert("xrGetVulkanInstanceExtensionsKHR"@[2] != "xrEnumerateEnvironmentBlendModes"@[2]);
        }
    }
    lemma_lookup_row("xrEnumerateEnvironmentBlendModes"@, 34);
    reveal_strlit("xrGetViewConfigurationProperties");
    assert forall|j: int| 0 <= j < 35 && row_len(j) == "xrGetViewConfigurationProperties"@.len() implies #[trigger] instance_row(j).0@ != "xrGetViewConfigurationProperties"@ by {
        if j == 5 {
            reveal_strlit("xrGetVulkanInstanceExtensionsKHR");
            assert("xrGetVulkanInstanceExtensionsKHR"@[6] != "xrGetViewConfigurationProperties"@[6]);
        } else if j == 34 {
            reveal_strlit("xrEnumerateEnvironmentBlendModes");
            assert("xrEnumerateEnvironmentBlendModes"@[2] != "xrGetViewConfigurationProperties"@[2]);
        }
    }
    lemma_lookup_row("xrGetViewConfigurationProperties"@, 35);
    reveal_strlit("xrEnumerateViewConfigurationViews");
    lemma_lookup_row("xrEnumerateViewConfigurationViews"@, 36);
    reveal_strlit("xrApplyHapticFeedback");
    assert forall|j: int| 0 <= j < 40 && row_len(j) == "xrApplyHapticFeedback"@.len() implies #[trigger] instance_row(j).0@ != "xrApplyHapticFeedback"@ by {
        if j == 0 {
            reveal_strlit("xrGetInstanceProcAddr");
            assert("xrGetInstanceProcAddr"@[2] != "xrApplyHapticFeedback"@[2]);
        } else if j == 22 {
            reveal_strlit("xrGetSystemProperties");
            assert("xrGetSystemProperties"@[2] != "xrApplyHapticFeedback"@[2]);
        }
    }
    lemma_lookup_row("xrApplyHapticFeedback"@, 40);
    reveal_strlit("xrStopHapticFeedback");
    assert forall|j: int| 0 <= j < 41 && row_len(j) == "xrStopHapticFeedback"@.len() implies #[trigger] instance_row(j).0@ != "xrStopHapticFeedback"@ by {
        if j == 18 {
            reveal_strlit("xrRequestExitSession");
            assert("xrRequestExitSession"@[2] != "xrStopHapticFeedback"@[2]);
        } else if j == 27 {
            reveal_strlit("xrWaitSwapchainImage");
            assert("xrWaitSwapchainImage"@[2] != "xrStopHapticFeedback"@[2]);
        }
    }
    lemma_lookup_row("xrStopHapticFeedback"@, 41);
    reveal_strlit("xrPathToString");
    assert forall|j: int| 0 <= j < 44 && row_len(j) == "xrPathToString"@.len() implies #[trigger] instance_row(j).0@ != "xrPathToString"@ by {
        if j == 12 {
            reveal_strlit("xrBeginSession");
            assert("xrBeginSession"@[2] != "xrPathToString"@[2]);
        } else if j == 16 {
            reveal_strlit("xrDestroySpace");
            assert("xrDestroySpace"@[2] != "xrPathToString"@[2]);
        } else if j == 43 {
            reveal_strlit("xrStringToPath");
            assert("xrStringToPath"@[2] != "xrPathToString"@[2]);
        }
    }
    lemma_lookup_row("xrPathToString"@, 44);
    reveal_strlit("xrGetReferenceSpaceBoundsRect");
    assert forall|j: int| 0 <= j < 45 && row_len(j) == "xrGetReferenceSpaceBoundsRect"@.len() implies #[trigger] instance_row(j).0@ != "xrGetReferenceSpaceBoundsRect"@ by {
        if j == 4 {
            reveal_strlit("xrEnumerateApiLayerProperties");
            assert("xrEnumerateApiLayerProperties"@[2] != "xrGetReferenceSpaceBoundsRect"@[2]);
        } else if j == 33 {
            reveal_strlit("xrEnumerateViewConfigurations");
            assert("xrEnumerateViewConfigurations"@[2] != "xrGetReferenceSpaceBoundsRect"@[2]);
        }
    }
    lemma_lookup_row("xrGetReferenceSpaceBoundsRect"@, 45);
    reveal_strlit("xrGetActionStateVector2f");
    lemma_lookup_row("xrGetActionStateVector2f"@, 48);
    reveal_strlit("xrGetActionStatePose");
    assert forall|j: int| 0 <= j < 49 && row_len(j) == "xrGetActionStatePose"@.len() implies #[trigger] instance_row(j).0@ != "xrGetActionStatePose"@ by {
        if j == 18 {
            reveal_strlit("xrRequestExitSession");
            assert("xrRequestExitSession"@[2] != "xrGetActionStatePose"@[2]);
        } else if j == 27 {
            reveal_strlit("xrWaitSwapchainImage");
            assert("xrWaitSwapchainImage"@[2] != "xrGetActionStatePose"@[2]);
        } else if j == 41 {
            reveal_strlit("xrStopHapticFeedback");
            assert("xrStopHapticFeedback"@[2] != "xrGetActionStatePose"@[2]);
        }
    }
    lemma_lookup_row("xrGetActionStatePose"@, 49);
    reveal_strlit("xrGetCurrentInteractionProfile");
    assert forall|j: int| 0 <= j < 56 && row_len(j) == "xrGetCurrentInteractionProfile"@.len() implies #[trigger] instance_row(j).0@ != "xrGetCurrentInteractionProfile"@ by {
        if j == 6 {
            reveal_strlit("xrGetVulkanDeviceExtensionsKHR");
            assert("xrGetVulkanDeviceExtensionsKHR"@[5] != "xrGetCurrentInteractionProfile"@[5]);
        }
    }
    lemma_lookup_row("xrGetCurrentInteractionProfile"@, 56);
    reveal_strlit("xrEnumerateBoundSourcesForAction");
    assert forall|j: int| 0 <= j < 58 && row_len(j) == "xrEnumerateBoundSourcesForAction"@.len() implies #[trigger] instance_row(j).0@ != "xrEnumerateBoundSourcesForAction"@ by {
        if j == 5 {
            reveal_strlit("xrGetVulkanInstanceExtensionsKHR");
            assert("xrGetVulkanInstanceExtensionsKHR"@[2] != "xrEnumerateBoundSourcesForAction"@[2]);
        } else if j == 34 {
            reveal_strlit("xrEnumerateEnvironmentBlendModes");
            assert("xrEnumerateEnvironmentBlendModes"@[11] != "xrEnumerateBoundSourcesForAction"@[11]);
        } else if j == 35 {
            reveal_strlit("xrGetViewConfigurationProperties");
            assert("xrGetViewConfigurationProperties"@[2] != "xrEnumerateBoundSourcesForAction"@[2]);
        }
    }
    lemma_lookup_row("xrEnumerateBoundSourcesForAction"@, 58);
    reveal_strlit("xrGetInputSourceLocalizedName");
    assert forall|j: int| 0 <= j < 59 && row_len(j) == "xrGetInputSourceLocalizedName"@.len() implies #[trigger] instance_row(j).0@ != "xrGetInputSourceLocalizedName"@ by {
        if j == 4 {
            reveal_strlit("xrEnumerateApiLayerProperties");
            assert("xrEnumerateApiLayerProperties"@[2] != "xrGetInputSourceLocalizedName"@[2]);
        } else if j == 33 {
            reveal_strlit("xrEnumerateViewConfigurations");
            assert("xrEnumerateViewConfigurations"@[2] != "xrGetInputSourceLocalizedName"@[2]);
        } else if j == 45 {
            reveal_strlit("xrGetReferenceSpaceBoundsRect");
            assert("xrGetReferenceSpaceBoundsRect"@[5] != "xrGetInputSourceLocalizedName"@[5]);
        }
    }
    lemma_lookup_row("xrGetInputSourceLocalizedName"@, 59);
}

} // verus!
