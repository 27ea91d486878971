//! Proofs that the runtime's operations keep it well formed, and the
//! stages through which a sync passes on its way to its specified result.

use vstd::prelude::*;
use crate::model::{
    action_alive, action_handle_held, action_state, boolean_state, first_owner_at,
    float_state, handle_dropped, set_active,
    ActionKind, Obj, XrError, accepted_count, all_attached, attachable, attached_of,
    evolves, has_room, holds, initial_state, is_action, is_action_set, is_session, next_handle,
    obj, obj_wf, put, set_has_action, sync_result, sync_stage, sync_stage_obj, synced, wf,
    with_attached, with_new_action,
};

verus! {

/// Attaching sets that may be attached keeps the runtime well formed.
pub(crate) proof fn lemma_attach_wf(m: Seq<Obj>, session: u64, sets: Seq<u64>)
    requires
        wf(m),
        is_session(m, session),
        attached_of(m, session) is None,
        attachable(m, sets),
    ensures
        wf(with_attached(m, session, sets)),
{
    let m2 = with_attached(m, session, sets);
    assert forall|i: int| 0 <= i < m.len() implies evolves(m[i], #[trigger] m2[i]) by {}
    assert forall|i: int|
        0 <= i < m2.len() && (i >= m.len() || m2[i] != m[i]) implies obj_wf(m2, #[trigger] m2[i]) by {
        reveal(wf);
        assert(obj_wf(m, m[i]));
        if i == session - 1 {
            assert forall|j: int| 0 <= j < sets.len() implies {
                let s = #[trigger] obj(m2, sets[j]);
                &&& 1 <= sets[j] <= m2.len()
                &&& s is Released || (s matches Obj::ActionSet { frozen, .. } && frozen)
            } by {
                assert(obj(m, sets[j]) is ActionSet);
                assert(sets.contains(sets[j]));
            }
        }
    }
    lemma_evolve_wf(m, m2);
}

/// Action `a` with its pending state made current.
pub(crate) open spec fn applied(o: Obj) -> Obj {
    match o {
        Obj::Action { state, pending, handle } => Obj::Action {
            state: match pending {
                Some(p) => p,
                None => state,
            },
            pending: None,
            handle,
        },
        _ => o,
    }
}

/// `m` after the pending state of action `a` was made current.
pub(crate) open spec fn applied_at(m: Seq<Obj>, a: u64) -> Seq<Obj> {
    if is_action(m, a) {
        put(m, a, applied(m[a - 1]))
    } else {
        m
    }
}

/// `m` with the `active` flag of action set `h` set to `flag`.
pub(crate) open spec fn with_active(m: Seq<Obj>, h: u64, flag: bool) -> Seq<Obj> {
    match obj(m, h) {
        Obj::ActionSet { actions, frozen, .. } => put(
            m,
            h,
            Obj::ActionSet { actions, frozen, active: flag },
        ),
        _ => m,
    }
}

/// Part way through a sync, every object keeps its kind; a set keeps its
/// actions and whether it is frozen.
pub(crate) proof fn lemma_stage_kind(
    m: Seq<Obj>,
    off: Seq<u64>,
    on: Seq<u64>,
    ap: Seq<u64>,
    extra: Seq<u64>,
    i: int,
)
    requires
        0 <= i < m.len(),
    ensures
        sync_stage(m, off, on, ap, extra)[i] == sync_stage_obj(m, off, on, ap, extra, i),
        m[i] matches Obj::ActionSet { actions, frozen, .. } ==> (sync_stage(
            m,
            off,
            on,
            ap,
            extra,
        )[i] matches Obj::ActionSet { actions: a2, frozen: f2, .. } && a2 == actions && f2
            == frozen),
        m[i] is Action ==> sync_stage(m, off, on, ap, extra)[i] is Action,
{
}

/// Deactivating the next attached set extends the first phase of a sync.
pub(crate) proof fn lemma_stage_extend_off(m: Seq<Obj>, before: Seq<Obj>, after: Seq<Obj>, sets: Seq<u64>, j: int)
    requires
        m.len() <= usize::MAX,
        0 <= j < sets.len(),
        is_action_set(m, sets[j]),
        before == sync_stage(m, sets.take(j), Seq::empty(), Seq::empty(), Seq::empty()),
        after == with_active(before, sets[j], false),
    ensures
        after == sync_stage(m, sets.take(j + 1), Seq::empty(), Seq::empty(), Seq::empty()),
{
    let h = sets[j];
    let none = Seq::<u64>::empty();
    let next = sync_stage(m, sets.take(j + 1), none, none, none);
    lemma_stage_kind(m, sets.take(j), none, none, none, h - 1);
    assert(sets.take(j + 1) =~= sets.take(j).push(h));
    assert forall|x: int| 0 <= x < after.len() implies after[x] == next[x] by {
        let y = (x + 1) as u64;
        assert(sets.take(j + 1).contains(y) <==> (sets.take(j).contains(y) || y == h)) by {
            if sets.take(j + 1).contains(y) {
                let q = choose|q: int| 0 <= q < j + 1 && #[trigger] sets.take(j + 1)[q] == y;
                if q < j {
                    assert(sets.take(j)[q] == y);
                }
            }
            if sets.take(j).contains(y) {
                let q = choose|q: int| 0 <= q < j && #[trigger] sets.take(j)[q] == y;
                assert(sets.take(j + 1)[q] == y);
            }
            if y == h {
                assert(sets.take(j + 1)[j] == h);
            }
        }
    }
    assert(after =~= next);
}

/// Activating the next set of the active list extends the second phase.
pub(crate) proof fn lemma_stage_extend_on(
    m: Seq<Obj>,
    before: Seq<Obj>,
    after: Seq<Obj>,
    sets: Seq<u64>,
    act: Seq<u64>,
    k: int,
)
    requires
        m.len() <= usize::MAX,
        0 <= k < act.len(),
        is_action_set(m, act[k]),
        before == sync_stage(m, sets, act.take(k), act.take(k), Seq::empty()),
        after == with_active(before, act[k], true),
    ensures
        after == sync_stage(m, sets, act.take(k + 1), act.take(k), Seq::empty()),
{
    let h = act[k];
    let none = Seq::<u64>::empty();
    let next = sync_stage(m, sets, act.take(k + 1), act.take(k), none);
    lemma_stage_kind(m, sets, act.take(k), act.take(k), none, h - 1);
    assert forall|x: int| 0 <= x < after.len() implies after[x] == next[x] by {
        let y = (x + 1) as u64;
        assert(act.take(k + 1).contains(y) <==> (act.take(k).contains(y) || y == h)) by {
            if act.take(k + 1).contains(y) {
                let q = choose|q: int| 0 <= q < k + 1 && #[trigger] act.take(k + 1)[q] == y;
                if q < k {
                    assert(act.take(k)[q] == y);
                }
            }
            if act.take(k).contains(y) {
                let q = choose|q: int| 0 <= q < k && #[trigger] act.take(k)[q] == y;
                assert(act.take(k + 1)[q] == y);
            }
            if y == h {
                assert(act.take(k + 1)[k] == h);
            }
        }
    }
    assert(after =~= next);
}

/// Applying the pending state of the next action of a set extends the
/// second phase.
pub(crate) proof fn lemma_stage_extend_extra(
    m: Seq<Obj>,
    before: Seq<Obj>,
    after: Seq<Obj>,
    sets: Seq<u64>,
    on: Seq<u64>,
    ap: Seq<u64>,
    acts: Seq<u64>,
    l: int,
)
    requires
        m.len() <= usize::MAX,
        0 <= l < acts.len(),
        before == sync_stage(m, sets, on, ap, acts.take(l)),
        after == applied_at(before, acts[l]),
    ensures
        after == sync_stage(m, sets, on, ap, acts.take(l + 1)),
{
    let a = acts[l];
    let next = sync_stage(m, sets, on, ap, acts.take(l + 1));
    assert forall|x: int| 0 <= x < after.len() implies after[x] == next[x] by {
        let y = (x + 1) as u64;
        lemma_stage_kind(m, sets, on, ap, acts.take(l), x);
        lemma_stage_kind(m, sets, on, ap, acts.take(l + 1), x);
        assert(acts.take(l + 1).contains(y) <==> (acts.take(l).contains(y) || y == a)) by {
            if acts.take(l + 1).contains(y) {
                let q = choose|q: int| 0 <= q < l + 1 && #[trigger] acts.take(l + 1)[q] == y;
                if q < l {
                    assert(acts.take(l)[q] == y);
                }
            }
            if acts.take(l).contains(y) {
                let q = choose|q: int| 0 <= q < l && #[trigger] acts.take(l)[q] == y;
                assert(acts.take(l + 1)[q] == y);
            }
            if y == a {
                assert(acts.take(l + 1)[l] == a);
            }
        }
    }
    assert(after =~= next);
}

/// Once all actions of the set just activated are applied, the set counts
/// among the sets whose actions were applied.
pub(crate) proof fn lemma_stage_close_set(m: Seq<Obj>, sets: Seq<u64>, act: Seq<u64>, k: int, acts: Seq<u64>)
    requires
        m.len() <= usize::MAX,
        0 <= k < act.len(),
        obj(m, act[k]) matches Obj::ActionSet { actions, .. } && actions == acts,
    ensures
        sync_stage(m, sets, act.take(k + 1), act.take(k), acts.take(acts.len() as int))
            == sync_stage(m, sets, act.take(k + 1), act.take(k + 1), Seq::empty()),
{
    let s1 = sync_stage(m, sets, act.take(k + 1), act.take(k), acts.take(acts.len() as int));
    let s2 = sync_stage(m, sets, act.take(k + 1), act.take(k + 1), Seq::empty());
    assert(acts.take(acts.len() as int) =~= acts);
    assert forall|x: int| 0 <= x < s1.len() implies s1[x] == s2[x] by {
        let y = (x + 1) as u64;
        let e1 = exists|j: int| 0 <= j < act.take(k).len() && set_has_action(m, #[trigger] act.take(k)[j], y);
        let e2 = exists|j: int| 0 <= j < act.take(k + 1).len() && set_has_action(m, #[trigger] act.take(k + 1)[j], y);
        assert((e1 || acts.contains(y)) <==> e2) by {
            if e1 {
                let j = choose|j: int| 0 <= j < act.take(k).len() && set_has_action(m, #[trigger] act.take(k)[j], y);
                assert(act.take(k + 1)[j] == act.take(k)[j]);
            }
            if acts.contains(y) {
                assert(act.take(k + 1)[k] == act[k]);
                assert(set_has_action(m, act.take(k + 1)[k], y));
            }
            if e2 {
                let j = choose|j: int| 0 <= j < act.take(k + 1).len() && set_has_action(m, #[trigger] act.take(k + 1)[j], y);
                if j < k {
                    assert(act.take(k)[j] == act.take(k + 1)[j]);
                }
            }
        }
    }
    assert(s1 =~= s2);
}

/// A sync that handled the first `n` sets of `act` and stops there ends in
/// the state and result that `synced` and `sync_result` describe, and keeps
/// the runtime well formed.
pub(crate) proof fn lemma_synced_stage(m: Seq<Obj>, session: u64, act: Seq<u64>, sets: Seq<u64>, n: int)
    requires
        m.len() <= usize::MAX,
        wf(m),
        attached_of(m, session) == Some(sets),
        0 <= n <= act.len(),
        all_attached(sets, act, n),
        n == act.len() || !sets.contains(act[n]),
    ensures
        accepted_count(sets, act) == n,
        synced(m, session, act) == sync_stage(m, sets, act.take(n), act.take(n), Seq::empty()),
        sync_result(m, session, act) == (if n == act.len() {
            Ok::<(), XrError>(())
        } else {
            Err::<(), XrError>(XrError::ActionSetNotAttached)
        }),
        wf(synced(m, session, act)),
{
    if n < act.len() {
        assert(!all_attached(sets, act, act.len() as int));
        let c = choose|c: int|
            0 <= c < act.len() && all_attached(sets, act, c) && !sets.contains(act[c]);
        assert(0 <= n < act.len() && all_attached(sets, act, n) && !sets.contains(act[n]));
        if c < n {
            assert(sets.contains(act[c]));
        }
        if c > n {
            assert(sets.contains(act[n]));
        }
    }
    let on = act.take(n);
    let a = synced(m, session, act);
    let b = sync_stage(m, sets, on, on, Seq::empty());
    assert forall|x: int| 0 <= x < a.len() implies a[x] == b[x] by {
        let y = (x + 1) as u64;
        if on.contains(y) {
            let q = choose|q: int| 0 <= q < n && #[trigger] on[q] == y;
            assert(sets.contains(act[q]));
        }
    }
    assert(a =~= b);
    lemma_stage_wf(m, sets, on, on);
}

/// Every stage of a sync is well formed.
pub(crate) proof fn lemma_stage_wf(m: Seq<Obj>, off: Seq<u64>, on: Seq<u64>, ap: Seq<u64>)
    requires
        wf(m),
    ensures
        wf(sync_stage(m, off, on, ap, Seq::empty())),
{
    let m2 = sync_stage(m, off, on, ap, Seq::empty());
    assert forall|i: int| 0 <= i < m.len() implies evolves(m[i], #[trigger] m2[i]) by {
        lemma_stage_kind(m, off, on, ap, Seq::empty(), i);
    }
    assert forall|i: int|
        0 <= i < m2.len() && (i >= m.len() || m2[i] != m[i]) implies obj_wf(m2, #[trigger] m2[i]) by {
        lemma_stage_kind(m, off, on, ap, Seq::empty(), i);
        reveal(wf);
        assert(obj_wf(m, m[i]));
    }
    lemma_evolve_wf(m, m2);
}

/// A step in which every old object evolves, every new or changed object
/// is well formed in the new state, and no new object holds an action, keeps
/// the runtime well formed.
pub(crate) proof fn lemma_evolve_wf(m: Seq<Obj>, m2: Seq<Obj>)
    requires
        wf(m),
        m.len() <= m2.len(),
        forall|i: int| 0 <= i < m.len() ==> evolves(m[i], #[trigger] m2[i]),
        forall|i: int|
            0 <= i < m2.len() && (i >= m.len() || m2[i] != m[i]) ==> obj_wf(m2, #[trigger] m2[i]),
        forall|i: int, a: u64| m.len() <= i < m2.len() ==> !#[trigger] holds(m2[i], a),
    ensures
        wf(m2),
{
    reveal(wf);
    assert forall|i: int| 0 <= i < m2.len() implies obj_wf(m2, #[trigger] m2[i]) by {
        if i < m.len() && m2[i] == m[i] {
            assert(obj_wf(m, m[i]));
            if let Obj::Session { attached: Some(sets), .. } = m[i] {
                assert forall|j: int| 0 <= j < sets.len() implies {
                    let s = #[trigger] obj(m2, sets[j]);
                    &&& 1 <= sets[j] <= m2.len()
                    &&& s is Released || (s matches Obj::ActionSet { frozen, .. } && frozen)
                } by {
                    let x = obj(m, sets[j]);
                    assert(evolves(m[sets[j] - 1], m2[sets[j] - 1]));
                }
            }
        }
    }
    assert forall|i: int, k: int, a: u64|
        0 <= i < m2.len() && 0 <= k < m2.len() && #[trigger] holds(m2[i], a) && #[trigger] holds(
            m2[k],
            a,
        ) implies i == k by {
        assert(evolves(m[i], m2[i]));
        assert(evolves(m[k], m2[k]));
        assert(holds(m[i], a));
        assert(holds(m[k], a));
    }
}

/// Creating an action in a live action set keeps the runtime well formed.
pub(crate) proof fn lemma_new_action_wf(m: Seq<Obj>, set: u64, kind: ActionKind)
    requires
        wf(m),
        has_room(m),
        is_action_set(m, set),
    ensures
        wf(with_new_action(m, set, kind)),
{
    let h = next_handle(m);
    let m1 = m.push(Obj::Action { state: initial_state(kind), pending: None, handle: true });
    lemma_push_wf(m, Obj::Action { state: initial_state(kind), pending: None, handle: true });
    let m2 = with_new_action(m, set, kind);
    reveal(wf);
    assert forall|i: int| 0 <= i < m2.len() implies obj_wf(m2, #[trigger] m2[i]) by {
        assert(obj_wf(m1, m1[i]));
        if i != set - 1 {
            assert(m2[i] == m1[i]);
            if let Obj::Session { attached: Some(sets), .. } = m1[i] {
                assert forall|j: int| 0 <= j < sets.len() implies {
                    let s = #[trigger] obj(m2, sets[j]);
                    &&& 1 <= sets[j] <= m2.len()
                    &&& s is Released || (s matches Obj::ActionSet { frozen, .. } && frozen)
                } by {
                    assert(obj(m1, sets[j]) is Released || obj(m1, sets[j]) is ActionSet);
                }
            }
        } else {
            if let Obj::ActionSet { actions, .. } = m1[i] {
                assert forall|j: int| 0 <= j < actions.push(h).len() implies 1 <= #[trigger] actions.push(h)[j] <= m2.len() by {
                    if j < actions.len() {
                        assert(actions.push(h)[j] == actions[j]);
                    }
                }
            }
        }
    }
    assert forall|i: int, k: int, a: u64|
        0 <= i < m2.len() && 0 <= k < m2.len() && #[trigger] holds(m2[i], a) && #[trigger] holds(
            m2[k],
            a,
        ) implies i == k by {
        if a == h {
            if i != set - 1 {
                assert(holds(m1[i], a));
                if let Obj::ActionSet { actions, .. } = m1[i] {
                    let j = choose|j: int| 0 <= j < actions.len() && actions[j] == a;
                    assert(obj_wf(m1, m1[i]));
                }
            }
            if k != set - 1 {
                assert(holds(m1[k], a));
                if let Obj::ActionSet { actions, .. } = m1[k] {
                    let j = choose|j: int| 0 <= j < actions.len() && actions[j] == a;
                    assert(obj_wf(m1, m1[k]));
                }
            }
        } else {
            assert(holds(m1[i], a));
            assert(holds(m1[k], a));
        }
    }
}

/// Replacing one object by one it may evolve into, well formed in the new
/// state, keeps the runtime well formed.
pub(crate) proof fn lemma_put_wf(m: Seq<Obj>, h: u64, o: Obj)
    requires
        wf(m),
        1 <= h <= m.len(),
        evolves(m[h - 1], o),
        obj_wf(put(m, h, o), o),
    ensures
        wf(put(m, h, o)),
{
    let m2 = put(m, h, o);
    assert forall|i: int| 0 <= i < m.len() implies evolves(m[i], #[trigger] m2[i]) by {
        reveal(wf);
        if i != h - 1 {
            assert(m2[i] == m[i]);
        }
    }
    lemma_evolve_wf(m, m2);
}

/// Appending an object that is well formed keeps the runtime well formed.
pub(crate) proof fn lemma_push_wf(m: Seq<Obj>, o: Obj)
    requires
        wf(m),
        obj_wf(m.push(o), o),
        forall|a: u64| !holds(o, a),
    ensures
        wf(m.push(o)),
{
    let m2 = m.push(o);
    assert forall|i: int| 0 <= i < m.len() implies evolves(m[i], #[trigger] m2[i]) by {
        assert(m2[i] == m[i]);
    }
    lemma_evolve_wf(m, m2);
}

/// Destroying an action's handle changes no action list, no set, no
/// session and no action state: every read gives what it gave before, and
/// the action stays alive exactly while a live set holds it.
pub(crate) proof fn lemma_handle_dropped_reads(m: Seq<Obj>, a: u64)
    requires
        action_handle_held(m, a),
    ensures
        action_alive(handle_dropped(m, a), a) == (exists|i: int|
            0 <= i < m.len() && #[trigger] holds(m[i], a)),
        forall|h: u64| h != a ==> action_alive(handle_dropped(m, a), h) == action_alive(m, h),
        forall|session: u64, read: u64|
            boolean_state(handle_dropped(m, a), session, read) == boolean_state(m, session, read)
            && float_state(handle_dropped(m, a), session, read) == float_state(m, session, read),
{
    let m2 = handle_dropped(m, a);
    assert forall|i: int, x: u64| 0 <= i < m.len() implies #[trigger] holds(m2[i], x) == holds(m[i], x) by {
        if i != a - 1 {
            assert(m2[i] == m[i]);
        }
    }
    assert forall|s: u64, x: u64| set_has_action(m2, s, x) == set_has_action(m, s, x) by {
        if 1 <= s <= m.len() && s != a {
            assert(m2[s - 1] == m[s - 1]);
        }
    }
    assert forall|h: u64| h != a implies action_alive(m2, h) == action_alive(m, h) by {
        if 1 <= h <= m.len() {
            assert(m2[h - 1] == m[h - 1]);
        }
        if exists|i: int| 0 <= i < m.len() && #[trigger] holds(m[i], h) {
            let i = choose|i: int| 0 <= i < m.len() && #[trigger] holds(m[i], h);
            assert(holds(m2[i], h));
        }
        if exists|i: int| 0 <= i < m2.len() && #[trigger] holds(m2[i], h) {
            let i = choose|i: int| 0 <= i < m2.len() && #[trigger] holds(m2[i], h);
            assert(holds(m[i], h));
        }
    }
    if exists|i: int| 0 <= i < m.len() && #[trigger] holds(m[i], a) {
        let i = choose|i: int| 0 <= i < m.len() && #[trigger] holds(m[i], a);
        assert(holds(m2[i], a));
    }
    if exists|i: int| 0 <= i < m2.len() && #[trigger] holds(m2[i], a) {
        let i = choose|i: int| 0 <= i < m2.len() && #[trigger] holds(m2[i], a);
        assert(holds(m[i], a));
    }
    assert forall|session: u64, read: u64|
        boolean_state(m2, session, read) == boolean_state(m, session, read)
        && float_state(m2, session, read) == float_state(m, session, read) by {
        assert(attached_of(m2, session) == attached_of(m, session)) by {
            if 1 <= session <= m.len() && session != a {
                assert(m2[session - 1] == m[session - 1]);
            }
        }
        assert(action_state(m2, read) == action_state(m, read)) by {
            if 1 <= read <= m.len() && read != a {
                assert(m2[read - 1] == m[read - 1]);
            }
        }
        assert forall|s: u64| set_active(m2, s) == set_active(m, s) by {
            if 1 <= s <= m.len() && s != a {
                assert(m2[s - 1] == m[s - 1]);
            }
        }
        if let Some(sets) = attached_of(m, session) {
            assert forall|k: int| first_owner_at(m2, sets, read, k) <==> first_owner_at(m, sets, read, k) by {
                assert forall|j: int| 0 <= j < k implies set_has_action(m2, #[trigger] sets[j], read)
                    == set_has_action(m, sets[j], read) by {}
                if 0 <= k < sets.len() {
                    assert(set_has_action(m2, sets[k], read) == set_has_action(m, sets[k], read));
                }
            }
        }
    }
}

/// `m` with the action sets of `frozen` frozen.
pub(crate) open spec fn frozen_stage(m: Seq<Obj>, frozen: Seq<u64>) -> Seq<Obj> {
    Seq::new(
        m.len(),
        |i: int|
            if frozen.contains((i + 1) as u64) {
                match m[i] {
                    Obj::ActionSet { actions, active, .. } => Obj::ActionSet {
                        actions,
                        frozen: true,
                        active,
                    },
                    _ => m[i],
                }
            } else {
                m[i]
            },
    )
}

/// Freezing action sets keeps the runtime well formed.
pub(crate) proof fn lemma_frozen_stage_wf(m: Seq<Obj>, frozen: Seq<u64>)
    requires
        wf(m),
    ensures
        wf(frozen_stage(m, frozen)),
{
    let m2 = frozen_stage(m, frozen);
    assert forall|i: int| 0 <= i < m.len() implies evolves(m[i], #[trigger] m2[i]) by {}
    assert forall|i: int|
        0 <= i < m2.len() && (i >= m.len() || m2[i] != m[i]) implies obj_wf(m2, #[trigger] m2[i]) by {
        reveal(wf);
        assert(obj_wf(m, m[i]));
    }
    lemma_evolve_wf(m, m2);
}

/// Recording the sets on the session after freezing them gives the state
/// that an attach describes.
pub(crate) proof fn lemma_attach_from_frozen(m: Seq<Obj>, session: u64, sets: Seq<u64>)
    requires
        is_session(m, session),
        attachable(m, sets),
    ensures
        ({
            let f = frozen_stage(m, sets);
            f[session - 1] == m[session - 1]
                && f.update(session - 1, match m[session - 1] {
                Obj::Session { instance, vk_device, .. } => Obj::Session {
                    instance,
                    vk_device,
                    attached: Some(sets),
                },
                _ => m[session - 1],
            }) == with_attached(m, session, sets)
        }),
{
    let f = frozen_stage(m, sets);
    if sets.contains(session) {
        let j = choose|j: int| 0 <= j < sets.len() && sets[j] == session;
        assert(obj(m, sets[j]) is ActionSet);
    }
    let a = f.update(session - 1, match m[session - 1] {
        Obj::Session { instance, vk_device, .. } => Obj::Session {
            instance,
            vk_device,
            attached: Some(sets),
        },
        _ => m[session - 1],
    });
    assert(a =~= with_attached(m, session, sets));
}

/// A sync changes no object's kind, no action set's list, no session and
/// no action's liveness: only active flags and action states.
pub(crate) proof fn lemma_synced_frame(m: Seq<Obj>, session: u64, active: Seq<u64>)
    ensures
        synced(m, session, active).len() == m.len(),
        forall|x: u64, a: u64|
            #[trigger] set_has_action(synced(m, session, active), x, a) == set_has_action(m, x, a),
        forall|x: u64| #[trigger] is_action_set(synced(m, session, active), x) == is_action_set(m, x),
        forall|x: u64| #[trigger] is_action(synced(m, session, active), x) == is_action(m, x),
        forall|x: u64| #[trigger] attached_of(synced(m, session, active), x) == attached_of(m, x),
        forall|x: u64| #[trigger] action_alive(synced(m, session, active), x) == action_alive(m, x),
{
    let m2 = synced(m, session, active);
    if let Some(sets) = attached_of(m, session) {
        let on = active.take(accepted_count(sets, active));
        assert forall|i: int| 0 <= i < m.len() implies #[trigger] m2[i] == crate::model::synced_obj(
            m,
            sets,
            on,
            i,
        ) by {}
        assert forall|i: int, a: u64| 0 <= i < m.len() implies #[trigger] holds(m2[i], a) == holds(
            m[i],
            a,
        ) by {
            assert(m2[i] == crate::model::synced_obj(m, sets, on, i));
        }
        assert forall|x: u64| #[trigger] action_alive(m2, x) == action_alive(m, x) by {
            if 1 <= x <= m.len() {
                assert(m2[x - 1] == crate::model::synced_obj(m, sets, on, x - 1));
            }
            if exists|i: int| 0 <= i < m.len() && #[trigger] holds(m[i], x) {
                let i = choose|i: int| 0 <= i < m.len() && #[trigger] holds(m[i], x);
                assert(holds(m2[i], x));
            }
            if exists|i: int| 0 <= i < m2.len() && #[trigger] holds(m2[i], x) {
                let i = choose|i: int| 0 <= i < m2.len() && #[trigger] holds(m2[i], x);
                assert(holds(m[i], x));
            }
        }
        assert forall|x: u64, a: u64| #[trigger] set_has_action(m2, x, a) == set_has_action(m, x, a) by {
            if 1 <= x <= m.len() {
                assert(m2[x - 1] == crate::model::synced_obj(m, sets, on, x - 1));
            }
        }
        assert forall|x: u64| #[trigger] is_action_set(m2, x) == is_action_set(m, x) by {
            if 1 <= x <= m.len() {
                assert(m2[x - 1] == crate::model::synced_obj(m, sets, on, x - 1));
            }
        }
        assert forall|x: u64| #[trigger] is_action(m2, x) == is_action(m, x) by {
            if 1 <= x <= m.len() {
                assert(m2[x - 1] == crate::model::synced_obj(m, sets, on, x - 1));
            }
        }
        assert forall|x: u64| #[trigger] attached_of(m2, x) == attached_of(m, x) by {
            if 1 <= x <= m.len() {
                assert(m2[x - 1] == crate::model::synced_obj(m, sets, on, x - 1));
            }
        }
    }
}

} // verus!
