//! The runtime's objects and the operations that the OpenXR entry points
//! perform on them.

use vstd::prelude::*;
use crate::invariants::{
    lemma_synced_frame,
    frozen_stage, lemma_attach_from_frozen, lemma_frozen_stage_wf,
    lemma_handle_dropped_reads,
    applied_at, lemma_attach_wf, lemma_new_action_wf, lemma_push_wf, lemma_put_wf,
    lemma_stage_close_set, lemma_stage_extend_extra, lemma_stage_extend_off,
    lemma_stage_extend_on, lemma_stage_kind, lemma_synced_stage, with_active,
};
use crate::model::{
    action_alive, action_handle_held, handle_dropped, holds,
    ActionKind, ActionState, ActionStateBoolean, ActionStateFloat, Obj, ReferenceSpaceKind,
    SessionEvent, SessionState, XrError, action_state, all_attached, attach_stage, attachable,
    attached_of, boolean_state, events_of, first_owner_at, float_state, has_room, instance_of,
    is_action, is_action_set, is_instance, is_session, new_action_set, next_handle, obj, obj_wf,
    owning_set, poll_result, polled, push_event, put, reference_space_value, same_kind,
    search_live, session_event, set_active, set_has_action, set_pending, sync_ready, sync_result,
    sync_stage, synced, wf, with_attached, with_new_action,
};

verus! {

struct InstanceData {
    events: Vec<SessionEvent>,
}

struct SessionData {
    instance: u64,
    vk_device: u64,
    attached: Option<Vec<u64>>,
}

struct ActionSetData {
    actions: Vec<u64>,
    frozen: bool,
    active: bool,
}

struct ActionData {
    state: ActionState,
    pending: Option<ActionState>,
    handle: bool,
}

enum Object {
    Instance(InstanceData),
    Session(SessionData),
    ActionSet(ActionSetData),
    Action(ActionData),
    Released,
}

impl View for Object {
    type V = Obj;

    closed spec fn view(&self) -> Obj {
        match self {
            Object::Instance(d) => Obj::Instance { events: d.events@ },
            Object::Session(d) => Obj::Session {
                instance: d.instance,
                vk_device: d.vk_device,
                attached: match &d.attached {
                    Some(v) => Some(v@),
                    None => None,
                },
            },
            Object::ActionSet(d) => Obj::ActionSet {
                actions: d.actions@,
                frozen: d.frozen,
                active: d.active,
            },
            Object::Action(d) => Obj::Action { state: d.state, pending: d.pending, handle: d.handle },
            Object::Released => Obj::Released,
        }
    }
}

/// The state of the fake runtime: every object that a handle has named.
pub struct Runtime {
    objects: Vec<Object>,
}

impl View for Runtime {
    type V = Seq<Obj>;

    closed spec fn view(&self) -> Seq<Obj> {
        self.objects@.map_values(|o: Object| o@)
    }
}

impl Runtime {
    /// The runtime is well formed in every state it can be seen in.
    #[verifier::type_invariant]
    pub open spec fn well_formed(self) -> bool {
        wf(self@)
    }

    /// A runtime with no objects.
    pub fn new() -> (rt: Runtime)
        ensures
            rt@ == Seq::<Obj>::empty(),
    {
        let objects: Vec<Object> = Vec::new();
        assert(objects@.map_values(|o: Object| o@) =~= Seq::<Obj>::empty());
        proof {
            reveal(wf);
        }
        Runtime { objects }
    }

    /// The slot of handle `h`, if it names one.
    fn slot(&self, h: u64) -> (r: Option<usize>)
        ensures
            r matches Some(i) ==> 1 <= h <= self@.len() && i == h - 1,
            r is None ==> !(1 <= h <= self@.len()),
    {
        if h == 0 || h > self.objects.len() as u64 {
            None
        } else {
            Some((h - 1) as usize)
        }
    }

    /// Moves all objects out, leaving the runtime empty.
    fn take_objects(&mut self) -> (v: Vec<Object>)
        ensures
            v@.map_values(|o: Object| o@) == old(self)@,
            final(self)@ == Seq::<Obj>::empty(),
    {
        let mut v: Vec<Object> = Vec::new();
        assert(v@.map_values(|o: Object| o@) =~= Seq::<Obj>::empty());
        proof {
            reveal(wf);
        }
        std::mem::swap(&mut v, &mut self.objects);
        v
    }

    /// Adds an object and returns its handle.
    fn add(&mut self, o: Object) -> (h: u64)
        requires
            has_room(old(self)@),
            wf(old(self)@.push(o@)),
        ensures
            h == next_handle(old(self)@),
            final(self)@ == old(self)@.push(o@),
    {
        let mut v = self.take_objects();
        v.push(o);
        let h = v.len() as u64;
        assert(v@.map_values(|o: Object| o@) =~= old(self)@.push(o@));
        self.objects = v;
        h
    }

    /// Replaces the object in slot `i`.
    fn replace(&mut self, i: usize, o: Object)
        requires
            i < old(self)@.len(),
            wf(old(self)@.update(i as int, o@)),
        ensures
            final(self)@ == old(self)@.update(i as int, o@),
    {
        let mut v = self.take_objects();
        v.set(i, o);
        assert(v@.map_values(|o: Object| o@) =~= old(self)@.update(i as int, o@));
        self.objects = v;
    }

    /// Moves the object out of slot `i`, leaving `Released` behind.
    fn take(&mut self, i: usize) -> (o: Object)
        requires
            i < old(self)@.len(),
        ensures
            o@ == old(self)@[i as int],
            final(self)@ == old(self)@.update(i as int, Obj::Released),
    {
        let n = self.count();
        proof {
            use_type_invariant(&*self);
            lemma_put_wf(old(self)@, (i + 1) as u64, Obj::Released);
            assert(put(old(self)@, (i + 1) as u64, Obj::Released) == old(self)@.update(i as int, Obj::Released));
        }
        let mut v = self.take_objects();
        let mut o = Object::Released;
        std::mem::swap(&mut o, &mut v[i]);
        assert(v@.map_values(|o: Object| o@) =~= old(self)@.update(i as int, Obj::Released));
        self.objects = v;
        o
    }

    /// The object in slot `i`.
    fn get(&self, i: usize) -> (o: &Object)
        requires
            i < self@.len(),
        ensures
            o@ == self@[i as int],
    {
        &self.objects[i]
    }

    /// The number of handles handed out so far.
    fn count(&self) -> (n: usize)
        ensures
            n == self@.len(),
    {
        self.objects.len()
    }

    /// The slot of a handle that names an object.
    fn index_of(&self, h: u64) -> (i: usize)
        requires
            1 <= h <= self@.len(),
        ensures
            i == h - 1,
            self@.len() <= usize::MAX,
    {
        assert(self.objects@.len() == self@.len());
        let n = self.objects.len();
        assert(h - 1 < n);
        (h - 1) as usize
    }

    /// Whether `h` names a live instance.
    pub fn is_instance(&self, h: u64) -> (r: bool)
        ensures
            r == is_instance(self@, h),
    {
        match self.slot(h) {
            Some(i) => match &self.objects[i] {
                Object::Instance(_) => true,
                _ => false,
            },
            None => false,
        }
    }

    /// Whether `h` names a live session.
    pub fn is_session(&self, h: u64) -> (r: bool)
        ensures
            r == is_session(self@, h),
    {
        match self.slot(h) {
            Some(i) => match self.get(i) {
                Object::Session(_) => true,
                _ => false,
            },
            None => false,
        }
    }

    /// Whether `h` names a live action set.
    pub fn is_action_set(&self, h: u64) -> (r: bool)
        ensures
            r == is_action_set(self@, h),
    {
        match self.slot(h) {
            Some(i) => match self.get(i) {
                Object::ActionSet(_) => true,
                _ => false,
            },
            None => false,
        }
    }

    /// Whether `h` names an action set that is alive and not yet attached,
    /// so that actions can still be created in it.
    pub fn is_open_action_set(&self, h: u64) -> (r: bool)
        ensures
            r == (obj(self@, h) matches Obj::ActionSet { frozen, .. } && !frozen),
    {
        match self.slot(h) {
            Some(i) => match self.get(i) {
                Object::ActionSet(d) => !d.frozen,
                _ => false,
            },
            None => false,
        }
    }

    /// The current state of action `h`, if `h` names a live action.
    pub fn action_state(&self, h: u64) -> (r: Option<ActionState>)
        ensures
            r == (if action_alive(self@, h) {
                Some(action_state(self@, h))
            } else {
                None::<ActionState>
            }),
    {
        let (state, handle) = match self.slot(h) {
            Some(i) => match self.get(i) {
                Object::Action(d) => (d.state, d.handle),
                _ => {
                    return None;
                },
            },
            None => {
                return None;
            },
        };
        if handle || self.held_by_live_set(h) {
            Some(state)
        } else {
            None
        }
    }

    /// Whether the handle of action `h` has not been destroyed yet.
    pub fn action_handle_held(&self, h: u64) -> (r: bool)
        ensures
            r == action_handle_held(self@, h),
    {
        match self.slot(h) {
            Some(i) => match self.get(i) {
                Object::Action(d) => d.handle,
                _ => false,
            },
            None => false,
        }
    }

    /// Whether a live action set holds action `h`.
    fn held_by_live_set(&self, h: u64) -> (r: bool)
        ensures
            r == (exists|i: int| 0 <= i < self@.len() && #[trigger] holds(self@[i], h)),
    {
        let n = self.count();
        let mut i: usize = 0;
        while i < n
            invariant
                n == self@.len(),
                i <= n,
                forall|j: int| 0 <= j < i ==> !#[trigger] holds(self@[j], h),
            decreases n - i,
        {
            let found = match self.get(i) {
                Object::ActionSet(d) => contains_handle(&d.actions, h),
                _ => false,
            };
            if found {
                assert(holds(self@[i as int], h));
                return true;
            }
            i = i + 1;
        }
        false
    }

    /// Whether session `session` has had action sets attached.
    pub fn is_attached(&self, session: u64) -> (r: bool)
        ensures
            r == (attached_of(self@, session) is Some),
    {
        match self.slot(session) {
            Some(i) => match self.get(i) {
                Object::Session(d) => d.attached.is_some(),
                _ => false,
            },
            None => false,
        }
    }

    /// Whether one more object can be created.
    pub fn has_room(&self) -> (r: bool)
        ensures
            r == has_room(self@),
    {
        let n = self.count();
        n < usize::MAX - 1
    }

    /// Whether session `session` can send events: its instance is alive.
    pub fn session_instance_live(&self, session: u64) -> (r: bool)
        ensures
            r == is_instance(self@, instance_of(self@, session)),
    {
        let instance = match self.slot(session) {
            Some(i) => match self.get(i) {
                Object::Session(d) => d.instance,
                _ => 0,
            },
            None => 0,
        };
        self.is_instance(instance)
    }

    /// Whether every set attached to session `session` is still alive.
    pub fn attached_sets_live(&self, session: u64) -> (r: bool)
        ensures
            r == sync_ready(self@, session),
    {
        let sets = match self.slot(session) {
            Some(i) => match self.get(i) {
                Object::Session(d) => match &d.attached {
                    Some(v) => v,
                    None => {
                        return true;
                    },
                },
                _ => {
                    return true;
                },
            },
            None => {
                return true;
            },
        };
        let mut j: usize = 0;
        while j < sets.len()
            invariant
                attached_of(self@, session) == Some(sets@),
                j <= sets@.len(),
                forall|q: int| 0 <= q < j ==> is_action_set(self@, #[trigger] sets@[q]),
            decreases sets@.len() - j,
        {
            if !self.is_action_set(sets[j]) {
                assert(!sync_ready(self@, session)) by {
                    let a = attached_of(self@, session)->0;
                    assert(a == sets@);
                    assert(0 <= j < a.len() && !is_action_set(self@, a[j as int]));
                }
                return false;
            }
            j = j + 1;
        }
        true
    }

    /// Whether a search of the sets attached to session `session` for
    /// action `action` only meets live action sets.
    pub fn attached_search_live(&self, session: u64, action: u64) -> (r: bool)
        ensures
            r == (attached_of(self@, session) matches Some(sets) ==> search_live(
                self@,
                sets,
                action,
            )),
    {
        let sets = match self.slot(session) {
            Some(i) => match self.get(i) {
                Object::Session(d) => match &d.attached {
                    Some(v) => v,
                    None => {
                        return true;
                    },
                },
                _ => {
                    return true;
                },
            },
            None => {
                return true;
            },
        };
        let ghost m = self@;
        let mut j: usize = 0;
        while j < sets.len()
            invariant
                m == self@,
                attached_of(m, session) == Some(sets@),
                j <= sets@.len(),
                forall|q: int| 0 <= q < j ==> is_action_set(m, #[trigger] sets@[q]),
                forall|q: int| 0 <= q < j ==> !set_has_action(m, #[trigger] sets@[q], action),
            decreases sets@.len() - j,
        {
            let s = sets[j];
            if !self.is_action_set(s) {
                assert(!search_live(m, sets@, action)) by {
                    assert(!is_action_set(m, sets@[j as int]));
                }
                return false;
            }
            let i = self.index_of(s);
            let found = match self.get(i) {
                Object::ActionSet(d) => contains_handle(&d.actions, action),
                _ => false,
            };
            if found {
                assert(search_live(m, sets@, action)) by {
                    assert forall|k: int|
                        0 <= k < sets@.len() && (forall|q: int|
                            0 <= q < k ==> !set_has_action(m, #[trigger] sets@[q], action))
                            implies is_action_set(m, #[trigger] sets@[k]) by {
                        if k > j {
                            assert(!set_has_action(m, sets@[j as int], action));
                        }
                    }
                }
                return true;
            }
            j = j + 1;
        }
        true
    }

    /// Whether `sets` may be attached to a session not yet attached: each is
    /// a live action set not attached before, listed once.
    pub fn can_attach(&self, sets: &Vec<u64>) -> (r: bool)
        ensures
            r == attachable(self@, sets@),
    {
        let mut j: usize = 0;
        while j < sets.len()
            invariant
                j <= sets@.len(),
                forall|q: int|
                    0 <= q < j ==> (#[trigger] obj(self@, sets@[q]) matches Obj::ActionSet {
                        frozen,
                        ..
                    } && !frozen),
                forall|p: int, q: int| 0 <= p < q < j ==> sets@[p] != sets@[q],
            decreases sets@.len() - j,
        {
            if !self.is_open_action_set(sets[j]) {
                return false;
            }
            let mut p: usize = 0;
            while p < j
                invariant
                    j < sets@.len(),
                    p <= j,
                    forall|x: int| 0 <= x < p ==> sets@[x] != sets@[j as int],
                decreases j - p,
            {
                if sets[p] == sets[j] {
                    return false;
                }
                p = p + 1;
            }
            j = j + 1;
        }
        true
    }

    /// Creates an instance with an empty event queue.
    pub fn create_instance(&mut self) -> (h: u64)
        requires
            has_room(old(self)@),
        ensures
            h == next_handle(old(self)@),
            final(self)@ == old(self)@.push(Obj::Instance { events: Seq::empty() }),
    {
        proof {
            use_type_invariant(&*self);
        }
        proof {
            lemma_push_wf(old(self)@, Obj::Instance { events: Seq::empty() });
        }
        self.add(Object::Instance(InstanceData { events: Vec::new() }))
    }

    /// Destroys the instance `instance`.
    pub fn destroy_instance(&mut self, instance: u64)
        requires
            is_instance(old(self)@, instance),
        ensures
            final(self)@ == put(old(self)@, instance, Obj::Released),
    {
        proof {
            use_type_invariant(&*self);
        }
        self.release(instance);
    }

    /// Queues `e` on instance `instance`.
    fn send_event(&mut self, instance: u64, e: SessionEvent)
        requires
            is_instance(old(self)@, instance),
        ensures
            final(self)@ == push_event(old(self)@, instance, e),
    {
        proof {
            use_type_invariant(&*self);
        }
        let i = self.index_of(instance);
        let ghost new = Obj::Instance { events: events_of(old(self)@, instance).push(e) };
        proof {
            lemma_put_wf(old(self)@, instance, new);
        }
        let o = self.take(i);
        if let Object::Instance(mut d) = o {
            d.events.push(e);
            assert(self@.update(i as int, Object::Instance(d)@) =~= put(old(self)@, instance, new));
            self.replace(i, Object::Instance(d));
        }
        assert(self@ =~= push_event(old(self)@, instance, e));
    }

    /// Creates a session on instance `instance` and queues its `Ready` event.
    pub fn create_session(&mut self, instance: u64, vk_device: u64) -> (h: u64)
        requires
            is_instance(old(self)@, instance),
            has_room(old(self)@),
        ensures
            h == next_handle(old(self)@),
            final(self)@ == push_event(
                old(self)@,
                instance,
                SessionEvent { session: h, state: SessionState::Ready },
            ).push(Obj::Session { instance, vk_device, attached: None }),
    {
        proof {
            use_type_invariant(&*self);
        }
        proof {
            lemma_push_wf(old(self)@, Obj::Session { instance, vk_device, attached: None });
        }
        let h = self.add(Object::Session(SessionData { instance, vk_device, attached: None }));
        self.send_event(instance, SessionEvent { session: h, state: SessionState::Ready });
        assert(self@ =~= push_event(
            old(self)@,
            instance,
            SessionEvent { session: h, state: SessionState::Ready },
        ).push(Obj::Session { instance, vk_device, attached: None }));
        h
    }

    /// Destroys session `session` and returns the Vulkan device it was
    /// created with.
    pub fn destroy_session(&mut self, session: u64) -> (vk_device: u64)
        requires
            is_session(old(self)@, session),
        ensures
            obj(old(self)@, session) matches Obj::Session { vk_device: d, .. } && vk_device == d,
            final(self)@ == put(old(self)@, session, Obj::Released),
    {
        proof {
            use_type_invariant(&*self);
        }
        let i = self.index_of(session);
        let vk_device = match self.get(i) {
            Object::Session(d) => d.vk_device,
            _ => 0,
        };
        self.release(session);
        vk_device
    }

    /// Queues a state-change event of session `session` on its instance.
    fn session_event(&mut self, session: u64, state: SessionState)
        requires
            is_session(old(self)@, session),
            is_instance(old(self)@, instance_of(old(self)@, session)),
        ensures
            final(self)@ == session_event(old(self)@, session, state),
    {
        proof {
            use_type_invariant(&*self);
        }
        let i = self.index_of(session);
        let instance = match self.get(i) {
            Object::Session(d) => d.instance,
            _ => 0,
        };
        self.send_event(instance, SessionEvent { session, state });
    }

    /// The application asks to leave the session: queues `Stopping`.
    pub fn request_exit_session(&mut self, session: u64)
        requires
            is_session(old(self)@, session),
            is_instance(old(self)@, instance_of(old(self)@, session)),
        ensures
            final(self)@ == session_event(old(self)@, session, SessionState::Stopping),
    {
        proof {
            use_type_invariant(&*self);
        }
        self.session_event(session, SessionState::Stopping);
    }

    /// The application ends the session: queues `Exiting`.
    pub fn end_session(&mut self, session: u64)
        requires
            is_session(old(self)@, session),
            is_instance(old(self)@, instance_of(old(self)@, session)),
        ensures
            final(self)@ == session_event(old(self)@, session, SessionState::Exiting),
    {
        proof {
            use_type_invariant(&*self);
        }
        self.session_event(session, SessionState::Exiting);
    }

    /// Takes the oldest event queued on instance `instance`, if any.
    pub fn poll_event(&mut self, instance: u64) -> (e: Option<SessionEvent>)
        requires
            is_instance(old(self)@, instance),
        ensures
            e == poll_result(old(self)@, instance),
            final(self)@ == polled(old(self)@, instance),
    {
        proof {
            use_type_invariant(&*self);
        }
        let i = self.index_of(instance);
        let empty = match self.get(i) {
            Object::Instance(d) => d.events.len() == 0,
            _ => true,
        };
        if empty {
            return None;
        }
        let ghost new = Obj::Instance { events: events_of(old(self)@, instance).drop_first() };
        proof {
            lemma_put_wf(old(self)@, instance, new);
        }
        let o = self.take(i);
        let mut e = None;
        if let Object::Instance(mut d) = o {
            e = Some(d.events.remove(0));
            assert(self@.update(i as int, Object::Instance(d)@) =~= put(old(self)@, instance, new));
            self.replace(i, Object::Instance(d));
        }
        assert(self@ =~= polled(old(self)@, instance));
        e
    }

    /// Creates an empty action set.
    pub fn create_action_set(&mut self) -> (h: u64)
        requires
            has_room(old(self)@),
        ensures
            h == next_handle(old(self)@),
            final(self)@ == old(self)@.push(new_action_set()),
    {
        proof {
            use_type_invariant(&*self);
        }
        proof {
            lemma_push_wf(old(self)@, new_action_set());
        }
        self.add(
            Object::ActionSet(ActionSetData { actions: Vec::new(), frozen: false, active: false }),
        )
    }

    /// Destroys action set `set`. The actions it held whose handles were
    /// destroyed already are gone with it (`action_alive` no longer holds).
    pub fn destroy_action_set(&mut self, set: u64)
        requires
            is_action_set(old(self)@, set),
        ensures
            final(self)@ == put(old(self)@, set, Obj::Released),
    {
        proof {
            use_type_invariant(&*self);
        }
        self.release(set);
    }

    /// Creates an action of kind `kind` in action set `set`, which must not
    /// have been attached yet.
    pub fn create_action(&mut self, set: u64, kind: ActionKind) -> (h: u64)
        requires
            has_room(old(self)@),
            obj(old(self)@, set) matches Obj::ActionSet { frozen, .. } && !frozen,
        ensures
            h == next_handle(old(self)@),
            final(self)@ == with_new_action(old(self)@, set, kind),
    {
        proof {
            use_type_invariant(&*self);
        }
        let state = match kind {
            ActionKind::BooleanInput => ActionState::Bool(false),
            ActionKind::PoseInput => ActionState::Pose,
            ActionKind::FloatInput => ActionState::Float(0),
        };
        proof {
            lemma_push_wf(old(self)@, Obj::Action { state, pending: None, handle: true });
            lemma_new_action_wf(old(self)@, set, kind);
        }
        let h = self.add(Object::Action(ActionData { state, pending: None, handle: true }));
        let i = self.index_of(set);
        let o = self.take(i);
        if let Object::ActionSet(mut d) = o {
            d.actions.push(h);
            assert(self@.update(i as int, Object::ActionSet(d)@) =~= with_new_action(
                old(self)@,
                set,
                kind,
            ));
            self.replace(i, Object::ActionSet(d));
        }
        assert(self@ =~= with_new_action(old(self)@, set, kind));
        h
    }

    /// Destroys action `action`.
    ///
    /// Only the handle lets go of the action: the action set it was created
    /// in still holds it, so while that set lives the action stays alive,
    /// is still synced, and reads and writes through it behave as before.
    pub fn destroy_action(&mut self, action: u64)
        requires
            action_handle_held(old(self)@, action),
        ensures
            final(self)@ == handle_dropped(old(self)@, action),
            action_alive(final(self)@, action) == (exists|i: int|
                0 <= i < old(self)@.len() && #[trigger] holds(old(self)@[i], action)),
            forall|h: u64| h != action ==> action_alive(final(self)@, h) == action_alive(old(self)@, h),
            forall|session: u64, read: u64|
                boolean_state(final(self)@, session, read) == boolean_state(old(self)@, session, read)
                && float_state(final(self)@, session, read) == float_state(old(self)@, session, read),
    {
        proof {
            use_type_invariant(&*self);
        }
        let i = self.index_of(action);
        proof {
            reveal(wf);
            assert(obj_wf(old(self)@, old(self)@[action - 1]));
            lemma_put_wf(old(self)@, action, handle_dropped(old(self)@, action)[action - 1]);
            lemma_handle_dropped_reads(old(self)@, action);
        }
        let o = self.take(i);
        if let Object::Action(mut d) = o {
            d.handle = false;
            assert(self@.update(i as int, Object::Action(d)@) =~= handle_dropped(old(self)@, action));
            self.replace(i, Object::Action(d));
        }
        assert(self@ =~= handle_dropped(old(self)@, action));
    }

    /// Attaches the action sets `sets` to session `session` and freezes
    /// them. A session is attached once: a second attach fails and changes
    /// nothing.
    pub fn attach_session_action_sets(&mut self, session: u64, sets: &Vec<u64>) -> (r: Result<
        (),
        XrError,
    >)
        requires
            is_session(old(self)@, session),
            attached_of(old(self)@, session) is None ==> attachable(old(self)@, sets@),
        ensures
            attached_of(old(self)@, session) is Some ==> r == Err::<(), XrError>(
                XrError::ActionSetsAlreadyAttached,
            ) && final(self)@ == old(self)@,
            attached_of(old(self)@, session) is None ==> r == Ok::<(), XrError>(())
                && final(self)@ == with_attached(old(self)@, session, sets@),
    {
        proof {
            use_type_invariant(&*self);
        }
        let ghost m0 = self@;
        let si = self.index_of(session);
        let already = match self.get(si) {
            Object::Session(d) => d.attached.is_some(),
            _ => true,
        };
        if already {
            return Err(XrError::ActionSetsAlreadyAttached);
        }
        assert(self@ =~= frozen_stage(m0, sets@.take(0)));
        let mut k: usize = 0;
        while k < sets.len()
            invariant
                k <= sets@.len(),
                self@ == frozen_stage(m0, sets@.take(k as int)),
                is_session(m0, session),
                attachable(m0, sets@),
                wf(m0),
            decreases sets@.len() - k,
        {
            let h = sets[k];
            assert(obj(m0, sets@[k as int]) is ActionSet);
            let i = self.index_of(h);
            let n = self.count();
            assert(((i as int) + 1) as u64 == h);
            assert(self@[i as int] is ActionSet);
            let ghost before = self@;
            let ghost next = frozen_stage(m0, sets@.take(k + 1));
            let ghost new = match before[i as int] {
                Obj::ActionSet { actions, active, .. } => Obj::ActionSet {
                    actions,
                    frozen: true,
                    active,
                },
                _ => before[i as int],
            };
            assert(sets@.take(k + 1) =~= sets@.take(k as int).push(h));
            assert forall|x: int| 0 <= x < before.len() implies #[trigger] before.update(
                i as int,
                new,
            )[x] == next[x] by {
                let y = (x + 1) as u64;
                if x != i {
                    assert(y != h);
                    if sets@.take(k + 1).contains(y) {
                        let j = choose|j: int| 0 <= j < k + 1 && #[trigger] sets@.take(k + 1)[j] == y;
                        assert(sets@.take(k as int)[j] == y);
                    }
                    if sets@.take(k as int).contains(y) {
                        let j = choose|j: int| 0 <= j < k && #[trigger] sets@.take(k as int)[j] == y;
                        assert(sets@.take(k + 1)[j] == y);
                    }
                } else {
                    assert(sets@.take(k + 1)[k as int] == h);
                }
            }
            assert(before.update(i as int, new) =~= next);
            proof {
                lemma_frozen_stage_wf(m0, sets@.take(k + 1));
            }
            let o = self.take(i);
            if let Object::ActionSet(mut d) = o {
                d.frozen = true;
                assert(Object::ActionSet(d)@ == new);
                assert(self@.update(i as int, Object::ActionSet(d)@) =~= next);
                self.replace(i, Object::ActionSet(d));
            }
            assert(self@ =~= next);
            k = k + 1;
        }
        assert(sets@.take(sets@.len() as int) =~= sets@);
        let list = copy_handles(sets);
        proof {
            lemma_attach_from_frozen(m0, session, sets@);
            lemma_attach_wf(m0, session, sets@);
        }
        let o = self.take(si);
        if let Object::Session(mut d) = o {
            d.attached = Some(list);
            assert(self@.update(si as int, Object::Session(d)@) =~= with_attached(m0, session, sets@));
            self.replace(si, Object::Session(d));
        }
        assert(self@ =~= with_attached(m0, session, sets@));
        Ok(())
    }

    /// Synchronises the actions of session `session`: every attached set is
    /// deactivated, then the sets of `active` are activated in order and the
    /// pending states of their actions become current. A set of `active`
    /// that is not attached stops the sync with an error, the sets before it
    /// having been handled.
    pub fn sync_actions(&mut self, session: u64, active: &Vec<u64>) -> (r: Result<(), XrError>)
        requires
            is_session(old(self)@, session),
            sync_ready(old(self)@, session),
        ensures
            r == sync_result(old(self)@, session, active@),
            final(self)@ == synced(old(self)@, session, active@),
            forall|x: u64, a: u64|
                #[trigger] set_has_action(final(self)@, x, a) == set_has_action(old(self)@, x, a),
            forall|x: u64| #[trigger] is_action_set(final(self)@, x) == is_action_set(old(self)@, x),
            forall|x: u64| #[trigger] attached_of(final(self)@, x) == attached_of(old(self)@, x),
            forall|x: u64| #[trigger] action_alive(final(self)@, x) == action_alive(old(self)@, x),
    {
        proof {
            use_type_invariant(&*self);
            lemma_synced_frame(self@, session, active@);
        }
        let ghost m0 = self@;
        let si = self.index_of(session);
        let attached = match self.get(si) {
            Object::Session(d) => match &d.attached {
                Some(v) => copy_handles(v),
                None => {
                    return Err(XrError::ActionSetNotAttached);
                },
            },
            _ => {
                return Err(XrError::ActionSetNotAttached);
            },
        };
        let ghost sets = attached@;
        let ghost none = Seq::<u64>::empty();
        assert(self@ =~= sync_stage(m0, sets.take(0), none, none, none));
        let mut j: usize = 0;
        while j < attached.len()
            invariant
                j <= sets.len(),
                sets == attached@,
                attached_of(m0, session) == Some(sets),
                sync_ready(m0, session),
                wf(m0),
                m0.len() <= usize::MAX,
                m0 == old(self)@,
                none == Seq::<u64>::empty(),
                self@ == sync_stage(m0, sets.take(j as int), none, none, none),
            decreases sets.len() - j,
        {
            let h = attached[j];
            assert(sets[j as int] == h);
            assert(attached_of(m0, session) matches Some(x) && x == sets);
            assert(is_action_set(m0, sets[j as int]));
            let ghost before = self@;
            assert(before == sync_stage(m0, sets.take(j as int), none, none, none));
            proof {
                lemma_stage_kind(m0, sets.take(j as int), none, none, none, h - 1);
            }
            self.set_active(h, false);
            proof {
                lemma_stage_extend_off(m0, before, self@, sets, j as int);
            }
            j = j + 1;
        }
        assert(sets.take(sets.len() as int) =~= sets);
        let mut k: usize = 0;
        while k < active.len()
            invariant
                k <= active@.len(),
                sets == attached@,
                attached_of(m0, session) == Some(sets),
                sync_ready(m0, session),
                wf(m0),
                m0.len() <= usize::MAX,
                m0 == old(self)@,
                none == Seq::<u64>::empty(),
                all_attached(sets, active@, k as int),
                self@ == sync_stage(m0, sets, active@.take(k as int), active@.take(k as int), none),
            decreases active@.len() - k,
        {
            let s = active[k];
            if !contains_handle(&attached, s) {
                proof {
                    lemma_synced_stage(m0, session, active@, sets, k as int);
                    lemma_synced_frame(m0, session, active@);
                }
                return Err(XrError::ActionSetNotAttached);
            }
            let ghost sk = choose|x: int| 0 <= x < sets.len() && sets[x] == s;
            assert(is_action_set(m0, sets[sk]));
            let i = self.index_of(s);
            proof {
                lemma_stage_kind(m0, sets, active@.take(k as int), active@.take(k as int), none, s - 1);
                reveal(wf);
                assert(obj_wf(m0, m0[session - 1]));
                assert(obj(m0, sets[sk]) matches Obj::ActionSet { frozen, .. } && frozen);
            }
            let frozen = match self.get(i) {
                Object::ActionSet(d) => d.frozen,
                _ => false,
            };
            if !frozen {
                return Err(XrError::ActionSetNotAttached);
            }
            let ghost before = self@;
            let actions = match self.get(i) {
                Object::ActionSet(d) => copy_handles(&d.actions),
                _ => Vec::new(),
            };
            self.set_active(s, true);
            proof {
                lemma_stage_extend_on(m0, before, self@, sets, active@, k as int);
            }
            let mut l: usize = 0;
            assert(actions@.take(0) =~= none);
            while l < actions.len()
                invariant
                    m0.len() <= usize::MAX,
                    none == Seq::<u64>::empty(),
                    k < active@.len(),
                    s == active@[k as int],
                    obj(m0, s) matches Obj::ActionSet { actions: acts, .. } && acts == actions@,
                    l <= actions@.len(),
                    self@ == sync_stage(
                        m0,
                        sets,
                        active@.take(k + 1),
                        active@.take(k as int),
                        actions@.take(l as int),
                    ),
                decreases actions@.len() - l,
            {
                let a = actions[l];
                let ghost before = self@;
                self.apply_pending(a);
                proof {
                    lemma_stage_extend_extra(
                        m0,
                        before,
                        self@,
                        sets,
                        active@.take(k + 1),
                        active@.take(k as int),
                        actions@,
                        l as int,
                    );
                }
                l = l + 1;
            }
            proof {
                lemma_stage_close_set(m0, sets, active@, k as int, actions@);
                assert(active@.take(k + 1)[k as int] == s);
                assert(all_attached(sets, active@, k + 1));
            }
            k = k + 1;
        }
        proof {
            assert(active@.take(active@.len() as int) =~= active@);
            lemma_synced_stage(m0, session, active@, sets, active@.len() as int);
        }
        Ok(())
    }

    /// Sets the `active` flag of action set `h`.
    fn set_active(&mut self, h: u64, flag: bool)
        requires
            is_action_set(old(self)@, h),
        ensures
            final(self)@ == with_active(old(self)@, h, flag),
    {
        proof {
            use_type_invariant(&*self);
            reveal(wf);
            assert(obj_wf(old(self)@, old(self)@[h - 1]));
            lemma_put_wf(old(self)@, h, with_active(old(self)@, h, flag)[h - 1]);
        }
        let i = self.index_of(h);
        let o = self.take(i);
        if let Object::ActionSet(mut d) = o {
            d.active = flag;
            assert(self@.update(i as int, Object::ActionSet(d)@) =~= with_active(old(self)@, h, flag));
            self.replace(i, Object::ActionSet(d));
        }
        assert(self@ =~= with_active(old(self)@, h, flag));
    }

    /// Makes the pending state of action `a` current, if `a` is a live action.
    fn apply_pending(&mut self, a: u64)
        ensures
            final(self)@ == applied_at(old(self)@, a),
    {
        if let Some(i) = self.slot(a) {
            let is_action = match self.get(i) {
                Object::Action(_) => true,
                _ => false,
            };
            if is_action {
                proof {
                    use_type_invariant(&*self);
                    reveal(wf);
                    assert(obj_wf(old(self)@, old(self)@[a - 1]));
                    lemma_put_wf(old(self)@, a, applied_at(old(self)@, a)[a - 1]);
                }
                let o = self.take(i);
                if let Object::Action(mut d) = o {
                    if let Some(p) = d.pending {
                        d.state = p;
                    }
                    d.pending = None;
                    assert(self@.update(i as int, Object::Action(d)@) =~= applied_at(old(self)@, a));
                    self.replace(i, Object::Action(d));
                }
            }
        }
        assert(self@ =~= applied_at(old(self)@, a));
    }

    /// The first set attached to session `session` that holds action
    /// `action`, if the session has been attached.
    fn get_action_if_attached(&self, session: u64, action: u64) -> (r: Option<u64>)
        requires
            is_session(self@, session),
            attached_of(self@, session) matches Some(sets) ==> search_live(self@, sets, action),
        ensures
            r == match attached_of(self@, session) {
                Some(sets) => owning_set(self@, sets, action),
                None => None,
            },
    {
        let si = self.index_of(session);
        let sets = match self.get(si) {
            Object::Session(d) => match &d.attached {
                Some(v) => v,
                None => {
                    return None;
                },
            },
            _ => {
                return None;
            },
        };
        let ghost m = self@;
        let mut j: usize = 0;
        while j < sets.len()
            invariant
                j <= sets@.len(),
                m == self@,
                attached_of(m, session) == Some(sets@),
                search_live(m, sets@, action),
                forall|q: int| 0 <= q < j ==> !set_has_action(m, #[trigger] sets@[q], action),
            decreases sets@.len() - j,
        {
            let s = sets[j];
            assert(is_action_set(m, sets@[j as int]));
            let i = self.index_of(s);
            let found = match self.get(i) {
                Object::ActionSet(d) => contains_handle(&d.actions, action),
                _ => false,
            };
            if found {
                assert(first_owner_at(m, sets@, action, j as int));
                proof {
                    let k = choose|k: int| first_owner_at(m, sets@, action, k);
                    if k < j {
                        assert(!set_has_action(m, sets@[k], action));
                    }
                    if k > j {
                        assert(!set_has_action(m, sets@[j as int], action));
                    }
                }
                return Some(s);
            }
            j = j + 1;
        }
        assert(!exists|k: int| first_owner_at(m, sets@, action, k));
        None
    }

    /// The state of boolean action `action` as session `session` reports it.
    pub fn get_action_state_boolean(&self, session: u64, action: u64) -> (r: Result<
        ActionStateBoolean,
        XrError,
    >)
        requires
            is_session(self@, session),
            attached_of(self@, session) matches Some(sets) ==> action_alive(self@, action)
                && search_live(self@, sets, action),
        ensures
            r == boolean_state(self@, session, action),
    {
        let set = match self.get_action_if_attached(session, action) {
            Some(s) => s,
            None => {
                return Err(XrError::ActionSetNotAttached);
            },
        };
        let b = match self.get(self.index_of(action)) {
            Object::Action(d) => match d.state {
                ActionState::Bool(b) => b,
                _ => {
                    return Err(XrError::ActionTypeMismatch);
                },
            },
            _ => {
                return Err(XrError::ActionTypeMismatch);
            },
        };
        if self.is_active_set(set) {
            Ok(ActionStateBoolean { is_active: true, current_state: b })
        } else {
            Ok(ActionStateBoolean { is_active: false, current_state: false })
        }
    }

    /// The state of float action `action` as session `session` reports it.
    pub fn get_action_state_float(&self, session: u64, action: u64) -> (r: Result<
        ActionStateFloat,
        XrError,
    >)
        requires
            is_session(self@, session),
            attached_of(self@, session) matches Some(sets) ==> action_alive(self@, action)
                && search_live(self@, sets, action),
        ensures
            r == float_state(self@, session, action),
    {
        let set = match self.get_action_if_attached(session, action) {
            Some(s) => s,
            None => {
                return Err(XrError::ActionSetNotAttached);
            },
        };
        let f = match self.get(self.index_of(action)) {
            Object::Action(d) => match d.state {
                ActionState::Float(f) => f,
                _ => {
                    return Err(XrError::ActionTypeMismatch);
                },
            },
            _ => {
                return Err(XrError::ActionTypeMismatch);
            },
        };
        if self.is_active_set(set) {
            Ok(ActionStateFloat { is_active: true, current_state: f })
        } else {
            Ok(ActionStateFloat { is_active: false, current_state: 0 })
        }
    }

    /// Whether `h` names an active action set.
    fn is_active_set(&self, h: u64) -> (r: bool)
        ensures
            r == set_active(self@, h),
    {
        match self.slot(h) {
            Some(i) => match self.get(i) {
                Object::ActionSet(d) => d.active,
                _ => false,
            },
            None => false,
        }
    }

    /// Releases the object of a live handle.
    fn release(&mut self, h: u64)
        requires
            1 <= h <= old(self)@.len(),
        ensures
            final(self)@ == put(old(self)@, h, Obj::Released),
    {
        proof {
            use_type_invariant(&*self);
        }
        proof {
            lemma_put_wf(old(self)@, h, Obj::Released);
        }
        if let Some(i) = self.slot(h) {
            self.replace(i, Object::Released);
        }
    }
}

/// Records `state` as the state that action `action` takes at the next sync
/// of a session with its action set active. The state must be of the
/// action's kind.
pub fn set_action_state(rt: &mut Runtime, action: u64, state: ActionState)
    requires
        action_alive(old(rt)@, action),
        same_kind(state, action_state(old(rt)@, action)),
    ensures
        final(rt)@ == set_pending(old(rt)@, action, state),
{
    proof {
        use_type_invariant(&*rt);
    }
    let i = rt.index_of(action);
    proof {
        lemma_put_wf(old(rt)@, action, set_pending(old(rt)@, action, state)[action - 1]);
    }
    let o = rt.take(i);
    if let Object::Action(mut d) = o {
        d.pending = Some(state);
        assert(rt@.update(i as int, Object::Action(d)@) =~= set_pending(old(rt)@, action, state));
        rt.replace(i, Object::Action(d));
    }
    assert(rt@ =~= set_pending(old(rt)@, action, state));
}

/// The handle value of a newly created reference space of kind `kind`.
pub fn create_reference_space(kind: ReferenceSpaceKind) -> (h: u64)
    ensures
        h == reference_space_value(kind),
{
    match kind {
        ReferenceSpaceKind::View => 1,
        ReferenceSpaceKind::Local => 2,
        ReferenceSpaceKind::Stage => 3,
    }
}

/// A copy of a list of handles.
fn copy_handles(v: &Vec<u64>) -> (r: Vec<u64>)
    ensures
        r@ == v@,
{
    let mut r: Vec<u64> = Vec::new();
    let mut i: usize = 0;
    while i < v.len()
        invariant
            i <= v@.len(),
            r@ == v@.take(i as int),
        decreases v@.len() - i,
    {
        r.push(v[i]);
        assert(v@.take(i + 1) =~= v@.take(i as int).push(v@[i as int]));
        i = i + 1;
    }
    assert(v@.take(v@.len() as int) =~= v@);
    r
}

/// Whether handle `h` occurs in `v`.
fn contains_handle(v: &Vec<u64>, h: u64) -> (r: bool)
    ensures
        r == v@.contains(h),
{
    let mut i: usize = 0;
    while i < v.len()
        invariant
            i <= v@.len(),
            forall|j: int| 0 <= j < i ==> v@[j] != h,
        decreases v@.len() - i,
    {
        if v[i] == h {
            return true;
        }
        i = i + 1;
    }
    false
}

} // verus!
