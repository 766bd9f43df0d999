//! The service registry: one process's registered methods, signals and
//! states, with their subscription bookkeeping, and the dispatcher that
//! answers peer-initiated frames out of it.

use vstd::prelude::*;
use vstd::slice::slice_to_vec;
use crate::errors::BusError;
use crate::messages::{Message, MessageBody, Response, BodyView, ResponseView, Payload};
use crate::messages::into_message;

verus! {

/// A registered method: its name, and the number under which the
/// surrounding process knows the handler function.
pub struct MethodEntry {
    pub name: String,
    pub handler: u64,
}

/// One subscription held on the publisher side: who subscribed, and the
/// `seq` under which that peer expects every push.
pub struct Subscriber {
    pub peer: String,
    pub seq: u64,
}

/// A registered signal and its current subscribers, in subscription order.
pub struct SignalEntry {
    pub name: String,
    pub subscribers: Vec<Subscriber>,
}

/// A registered state: its cached last value and its watchers.
pub struct StateEntry {
    pub name: String,
    pub value: Payload,
    pub watchers: Vec<Subscriber>,
}

/// The registry of one process: three mappings keyed by name. Registering
/// twice in one category is rejected, so each name has at most one entry
/// per category.
pub struct ServiceRegistry {
    pub methods: Vec<MethodEntry>,
    pub signals: Vec<SignalEntry>,
    pub states: Vec<StateEntry>,
}

impl ServiceRegistry {
    /// A method is registered under this name.
    pub open spec fn spec_has_method(self, n: Seq<char>) -> bool {
        exists|i: int| 0 <= i < self.methods@.len() && self.methods@[i].name@ == n
    }

    /// A signal is registered under this name.
    pub open spec fn spec_has_signal(self, n: Seq<char>) -> bool {
        exists|i: int| 0 <= i < self.signals@.len() && self.signals@[i].name@ == n
    }

    /// A state is registered under this name.
    pub open spec fn spec_has_state(self, n: Seq<char>) -> bool {
        exists|i: int| 0 <= i < self.states@.len() && self.states@[i].name@ == n
    }

    /// The index of the method registered under `n`.
    pub open spec fn spec_method_index(self, n: Seq<char>) -> int {
        choose|i: int| 0 <= i < self.methods@.len() && self.methods@[i].name@ == n
    }

    /// The index of the signal registered under `n`.
    pub open spec fn spec_signal_index(self, n: Seq<char>) -> int {
        choose|i: int| 0 <= i < self.signals@.len() && self.signals@[i].name@ == n
    }

    /// The index of the state registered under `n`.
    pub open spec fn spec_state_index(self, n: Seq<char>) -> int {
        choose|i: int| 0 <= i < self.states@.len() && self.states@[i].name@ == n
    }

    /// The handler number of the method registered under `n`.
    pub open spec fn spec_method_handler(self, n: Seq<char>) -> u64 {
        self.methods@[self.spec_method_index(n)].handler
    }

    /// The subscribers of the signal registered under `n`, in subscription
    /// order, as pairs of peer name and subscription `seq`.
    pub open spec fn spec_signal_subs(self, n: Seq<char>) -> Seq<(Seq<char>, u64)> {
        self.signals@[self.spec_signal_index(n)].subscribers@.map_values(
            |s: Subscriber| (s.peer@, s.seq),
        )
    }

    /// The cached value of the state registered under `n`.
    pub open spec fn spec_state_value(self, n: Seq<char>) -> Seq<u8> {
        self.states@[self.spec_state_index(n)].value@
    }

    /// The watchers of the state registered under `n`.
    pub open spec fn spec_state_watchers(self, n: Seq<char>) -> Seq<(Seq<char>, u64)> {
        self.states@[self.spec_state_index(n)].watchers@.map_values(
            |s: Subscriber| (s.peer@, s.seq),
        )
    }

    /// Well-formed registry: within each category, names are unique.
    pub open spec fn wf(self) -> bool {
        &&& forall|i: int, j: int|
            0 <= i < self.methods@.len() && 0 <= j < self.methods@.len() && i != j
                ==> self.methods@[i].name@ != self.methods@[j].name@
        &&& forall|i: int, j: int|
            0 <= i < self.signals@.len() && 0 <= j < self.signals@.len() && i != j
                ==> self.signals@[i].name@ != self.signals@[j].name@
        &&& forall|i: int, j: int|
            0 <= i < self.states@.len() && 0 <= j < self.states@.len() && i != j
                ==> self.states@[i].name@ != self.states@[j].name@
    }

    /// An empty registry.
    pub fn new() -> (r: ServiceRegistry)
        ensures
            r.methods@.len() == 0,
            r.signals@.len() == 0,
            r.states@.len() == 0,
            r.wf(),
    {
        ServiceRegistry { methods: Vec::new(), signals: Vec::new(), states: Vec::new() }
    }

    /// The index of the method registered under `name`, if any.
    fn find_method(&self, name: &String) -> (r: Option<usize>)
        ensures
            match r {
                Some(i) => 0 <= i < self.methods@.len() && self.methods@[i as int].name@
                    == name@,
                None => !self.spec_has_method(name@),
            },
    {
        let mut i: usize = 0;
        while i < self.methods.len()
            invariant
                0 <= i <= self.methods@.len(),
                forall|j: int| 0 <= j < i ==> self.methods@[j].name@ != name@,
            decreases self.methods@.len() - i,
        {
            if self.methods[i].name == *name {
                return Some(i);
            }
            i = i + 1;
        }
        None
    }

    /// The index of the signal registered under `name`, if any.
    fn find_signal(&self, name: &String) -> (r: Option<usize>)
        ensures
            match r {
                Some(i) => 0 <= i < self.signals@.len() && self.signals@[i as int].name@
                    == name@,
                None => !self.spec_has_signal(name@),
            },
    {
        let mut i: usize = 0;
        while i < self.signals.len()
            invariant
                0 <= i <= self.signals@.len(),
                forall|j: int| 0 <= j < i ==> self.signals@[j].name@ != name@,
            decreases self.signals@.len() - i,
        {
            if self.signals[i].name == *name {
                return Some(i);
            }
            i = i + 1;
        }
        None
    }

    /// The index of the state registered under `name`, if any.
    fn find_state(&self, name: &String) -> (r: Option<usize>)
        ensures
            match r {
                Some(i) => 0 <= i < self.states@.len() && self.states@[i as int].name@ == name@,
                None => !self.spec_has_state(name@),
            },
    {
        let mut i: usize = 0;
        while i < self.states.len()
            invariant
                0 <= i <= self.states@.len(),
                forall|j: int| 0 <= j < i ==> self.states@[j].name@ != name@,
            decreases self.states@.len() - i,
        {
            if self.states[i].name == *name {
                return Some(i);
            }
            i = i + 1;
        }
        None
    }

    /// Register a method under a fresh name; a name already in use in this
    /// category is rejected with `AlreadyRegistered` and nothing changes.
    pub fn register_method(&mut self, name: String, handler: u64) -> (r: Result<(), BusError>)
        requires
            old(self).wf(),
            name@.len() > 0,
        ensures
            final(self).wf(),
            if old(self).spec_has_method(name@) {
                r == Err::<(), BusError>(BusError::AlreadyRegistered) && *final(self) == *old(
                    self,
                )
            } else {
                &&& r matches Ok(v)
                &&& final(self).methods@ == old(self).methods@.push(
                    MethodEntry { name, handler },
                )
                &&& final(self).signals == old(self).signals
                &&& final(self).states == old(self).states
            },
            final(self).spec_has_method(name@),
    {
        match self.find_method(&name) {
            Some(_) => Err(BusError::AlreadyRegistered),
            None => {
                self.methods.push(MethodEntry { name, handler });
                proof {
                    assert(self.methods@[self.methods@.len() - 1].name@ == name@);
                }
                Ok(())
            },
        }
    }

    /// Register a signal under a fresh name, with no subscribers yet.
    pub fn register_signal(&mut self, name: String) -> (r: Result<(), BusError>)
        requires
            old(self).wf(),
            name@.len() > 0,
        ensures
            final(self).wf(),
            if old(self).spec_has_signal(name@) {
                r == Err::<(), BusError>(BusError::AlreadyRegistered) && *final(self) == *old(
                    self,
                )
            } else {
                &&& r matches Ok(v)
                &&& final(self).signals@.len() == old(self).signals@.len() + 1
                &&& final(self).signals@[old(self).signals@.len() as int].name@ == name@
                &&& final(self).signals@[old(self).signals@.len() as int].subscribers@.len()
                    == 0
                &&& forall|i: int|
                    0 <= i < old(self).signals@.len() ==> final(self).signals@[i] == old(
                        self,
                    ).signals@[i]
                &&& final(self).methods == old(self).methods
                &&& final(self).states == old(self).states
            },
            final(self).spec_has_signal(name@),
    {
        match self.find_signal(&name) {
            Some(_) => Err(BusError::AlreadyRegistered),
            None => {
                self.signals.push(SignalEntry { name, subscribers: Vec::new() });
                proof {
                    assert(self.signals@[self.signals@.len() - 1].name@ == name@);
                }
                Ok(())
            },
        }
    }

    /// Register a state under a fresh name, with the given initial value
    /// cached and no watchers yet.
    pub fn register_state(&mut self, name: String, initial: Payload) -> (r: Result<
        (),
        BusError,
    >)
        requires
            old(self).wf(),
            name@.len() > 0,
        ensures
            final(self).wf(),
            if old(self).spec_has_state(name@) {
                r == Err::<(), BusError>(BusError::AlreadyRegistered) && *final(self) == *old(
                    self,
                )
            } else {
                &&& r matches Ok(v)
                &&& final(self).states@.len() == old(self).states@.len() + 1
                &&& final(self).states@[old(self).states@.len() as int].name@ == name@
                &&& final(self).states@[old(self).states@.len() as int].value@ == initial@
                &&& final(self).states@[old(self).states@.len() as int].watchers@.len() == 0
                &&& forall|i: int|
                    0 <= i < old(self).states@.len() ==> final(self).states@[i] == old(
                        self,
                    ).states@[i]
                &&& final(self).methods == old(self).methods
                &&& final(self).signals == old(self).signals
            },
            final(self).spec_has_state(name@),
    {
        match self.find_state(&name) {
            Some(_) => Err(BusError::AlreadyRegistered),
            None => {
                self.states.push(StateEntry { name, value: initial, watchers: Vec::new() });
                proof {
                    assert(self.states@[self.states@.len() - 1].name@ == name@);
                }
                Ok(())
            },
        }
    }

    /// The handler number registered under `name`, if any.
    pub fn lookup_method(&self, name: &String) -> (r: Option<u64>)
        requires
            self.wf(),
        ensures
            match r {
                Some(h) => self.spec_has_method(name@) && h == self.spec_method_handler(name@),
                None => !self.spec_has_method(name@),
            },
    {
        match self.find_method(name) {
            Some(i) => {
                proof {
                    assert(self.spec_has_method(name@));
                    assert(self.spec_method_index(name@) == i as int);
                }
                Some(self.methods[i].handler)
            },
            None => None,
        }
    }

    /// Add a subscriber to the named signal: from now on every emission is
    /// also addressed to `peer` under `seq`. An unknown signal is refused
    /// with `SignalNotFound` and nothing changes.
    pub fn subscribe_signal(&mut self, name: &String, peer: &String, seq: u64) -> (r: Result<
        (),
        BusError,
    >)
        requires
            old(self).wf(),
        ensures
            final(self).wf(),
            !old(self).spec_has_signal(name@) ==> r == Err::<(), BusError>(
                BusError::SignalNotFound,
            ) && *final(self) == *old(self),
            old(self).spec_has_signal(name@) ==> {
                &&& r matches Ok(v)
                &&& final(self).spec_signal_subs(name@) == old(self).spec_signal_subs(
                    name@,
                ).push((peer@, seq))
                &&& forall|m: Seq<char>|
                    final(self).spec_has_signal(m) == old(self).spec_has_signal(m)
                &&& forall|m: Seq<char>|
                    m != name@ && old(self).spec_has_signal(m) ==> final(self).spec_signal_subs(
                        m,
                    ) == old(self).spec_signal_subs(m)
                &&& final(self).methods == old(self).methods
                &&& final(self).states == old(self).states
            },
    {
        match self.find_signal(name) {
            None => Err(BusError::SignalNotFound),
            Some(j) => {
                let ghost pre = *self;
                let mut entry = self.signals.remove(j);
                entry.subscribers.push(Subscriber { peer: peer.clone(), seq });
                self.signals.insert(j, entry);
                proof {
                    pre.signals@.remove_ensures(j as int);
                    pre.signals@.remove(j as int).insert_ensures(j as int, self.signals@[j as int]);
                    assert forall|i: int|
                        0 <= i < self.signals@.len() && i != j implies self.signals@[i]
                        == pre.signals@[i] by {
                        if i < j {
                            assert(self.signals@[i] == pre.signals@.remove(j as int)[i]);
                        } else {
                            assert(self.signals@[i] == pre.signals@.remove(j as int)[i - 1]);
                        }
                    }
                    assert(self.signals@.len() == pre.signals@.len());
                    assert(self.signals@[j as int].name@ == name@);
                    assert(self.signals@[j as int].subscribers@ == pre.signals@[
                        j as int
                    ].subscribers@.push(Subscriber { peer: *peer, seq }));
                    assert forall|m: Seq<char>|
                        final(self).spec_has_signal(m) == pre.spec_has_signal(m) by {
                        assert forall|i: int|
                            0 <= i < self.signals@.len() implies self.signals@[i].name@
                            == pre.signals@[i].name@ by {}
                    }
                    assert(pre.spec_signal_index(name@) == j as int);
                    assert(self.spec_signal_index(name@) == j as int);
                    assert(self.spec_signal_subs(name@) =~= pre.spec_signal_subs(name@).push(
                        (peer@, seq),
                    ));
                    assert forall|m: Seq<char>|
                        m != name@ && pre.spec_has_signal(m) implies self.spec_signal_subs(m)
                        == pre.spec_signal_subs(m) by {
                        let i_old = pre.spec_signal_index(m);
                        assert(0 <= i_old < pre.signals@.len() && pre.signals@[i_old].name@
                            == m);
                        assert(i_old != j);
                        assert(self.signals@[i_old].name@ == m);
                        assert(self.spec_has_signal(m));
                        let i_new = self.spec_signal_index(m);
                        assert(0 <= i_new < self.signals@.len() && self.signals@[i_new].name@
                            == m);
                        assert(i_new == i_old);
                        assert(self.signals@[i_new] == pre.signals@[i_old]);
                    }
                }
                Ok(())
            },
        }
    }

    /// Add a watcher to the named state and hand back the cached value —
    /// the initial `StateChanged` a fresh watcher is owed. An unknown
    /// state is refused with `StateNotFound` and nothing changes.
    pub fn watch_state(&mut self, name: &String, peer: &String, seq: u64) -> (r: Result<
        Payload,
        BusError,
    >)
        requires
            old(self).wf(),
        ensures
            final(self).wf(),
            !old(self).spec_has_state(name@) ==> r == Err::<Payload, BusError>(
                BusError::StateNotFound,
            ) && *final(self) == *old(self),
            old(self).spec_has_state(name@) ==> {
                &&& r matches Ok(v)
                &&& v@ == old(self).spec_state_value(name@)
                &&& final(self).spec_state_value(name@) == old(self).spec_state_value(name@)
                &&& final(self).spec_state_watchers(name@) == old(self).spec_state_watchers(
                    name@,
                ).push((peer@, seq))
                &&& forall|m: Seq<char>|
                    final(self).spec_has_state(m) == old(self).spec_has_state(m)
                &&& forall|m: Seq<char>|
                    m != name@ && old(self).spec_has_state(m) ==> final(self).spec_state_value(
                        m,
                    ) == old(self).spec_state_value(m) && final(self).spec_state_watchers(m)
                        == old(self).spec_state_watchers(m)
                &&& final(self).methods == old(self).methods
                &&& final(self).signals == old(self).signals
            },
    {
        match self.find_state(name) {
            None => Err(BusError::StateNotFound),
            Some(j) => {
                let ghost pre = *self;
                let mut entry = self.states.remove(j);
                entry.watchers.push(Subscriber { peer: peer.clone(), seq });
                let value = slice_to_vec(entry.value.as_slice());
                self.states.insert(j, entry);
                proof {
                    pre.states@.remove_ensures(j as int);
                    pre.states@.remove(j as int).insert_ensures(j as int, self.states@[j as int]);
                    assert forall|i: int|
                        0 <= i < self.states@.len() && i != j implies self.states@[i]
                        == pre.states@[i] by {
                        if i < j {
                            assert(self.states@[i] == pre.states@.remove(j as int)[i]);
                        } else {
                            assert(self.states@[i] == pre.states@.remove(j as int)[i - 1]);
                        }
                    }
                    assert(self.states@.len() == pre.states@.len());
                    assert(self.states@[j as int].name@ == name@);
                    assert(self.states@[j as int].value@ == pre.states@[j as int].value@);
                    assert(self.states@[j as int].watchers@ == pre.states@[
                        j as int
                    ].watchers@.push(Subscriber { peer: *peer, seq }));
                    assert forall|m: Seq<char>|
                        final(self).spec_has_state(m) == pre.spec_has_state(m) by {
                        assert forall|i: int|
                            0 <= i < self.states@.len() implies self.states@[i].name@
                            == pre.states@[i].name@ by {}
                    }
                    assert(pre.spec_state_index(name@) == j as int);
                    assert(self.spec_state_index(name@) == j as int);
                    assert(self.spec_state_watchers(name@) =~= pre.spec_state_watchers(
                        name@,
                    ).push((peer@, seq)));
                    assert forall|m: Seq<char>|
                        m != name@ && pre.spec_has_state(m) implies self.spec_state_value(m)
                        == pre.spec_state_value(m) && self.spec_state_watchers(m)
                        == pre.spec_state_watchers(m) by {
                        let i_old = pre.spec_state_index(m);
                        assert(0 <= i_old < pre.states@.len() && pre.states@[i_old].name@ == m);
                        assert(i_old != j);
                        assert(self.states@[i_old].name@ == m);
                        assert(self.spec_has_state(m));
                        let i_new = self.spec_state_index(m);
                        assert(0 <= i_new < self.states@.len() && self.states@[i_new].name@
                            == m);
                        assert(i_new == i_old);
                        assert(self.states@[i_new] == pre.states@[i_old]);
                    }
                }
                Ok(value)
            },
        }
    }

    /// Read the cached value of the named state.
    pub fn get_state(&self, name: &String) -> (r: Result<Payload, BusError>)
        requires
            self.wf(),
        ensures
            match r {
                Ok(v) => self.spec_has_state(name@) && v@ == self.spec_state_value(name@),
                Err(e) => e == BusError::StateNotFound && !self.spec_has_state(name@),
            },
    {
        match self.find_state(name) {
            None => Err(BusError::StateNotFound),
            Some(j) => {
                proof {
                    assert(self.spec_has_state(name@));
                    assert(self.spec_state_index(name@) == j as int);
                }
                Ok(slice_to_vec(self.states[j].value.as_slice()))
            },
        }
    }

    /// Update the cached value of the named state, and address one
    /// `StateChanged` push carrying the new value to every watcher, in
    /// watch order, each under its watcher's subscription `seq`. The cache
    /// and the pushes change in one step, so a watcher attached at any
    /// moment is owed either this value or a later one.
    pub fn set_state(&mut self, name: &String, value: Payload) -> (r: Result<
        Vec<(String, Message)>,
        BusError,
    >)
        requires
            old(self).wf(),
        ensures
            final(self).wf(),
            !old(self).spec_has_state(name@) ==> r == Err::<Vec<(String, Message)>, BusError>(
                BusError::StateNotFound,
            ) && *final(self) == *old(self),
            old(self).spec_has_state(name@) ==> {
                &&& r matches Ok(frames)
                &&& final(self).spec_state_value(name@) == value@
                &&& final(self).spec_state_watchers(name@) == old(self).spec_state_watchers(
                    name@,
                )
                &&& (r matches Ok(frames) ==> frames@.len() == old(self).spec_state_watchers(
                    name@,
                ).len() && forall|i: int|
                    0 <= i < frames@.len() ==> frames@[i].0@ == old(self).spec_state_watchers(
                        name@,
                    )[i].0 && frames@[i].1@.seq == old(self).spec_state_watchers(name@)[i].1
                        && frames@[i].1@.body == BodyView::Response(
                        ResponseView::StateChanged(value@),
                    ))
                &&& forall|m: Seq<char>|
                    final(self).spec_has_state(m) == old(self).spec_has_state(m)
                &&& forall|m: Seq<char>|
                    m != name@ && old(self).spec_has_state(m) ==> final(self).spec_state_value(
                        m,
                    ) == old(self).spec_state_value(m) && final(self).spec_state_watchers(m)
                        == old(self).spec_state_watchers(m)
                &&& final(self).methods == old(self).methods
                &&& final(self).signals == old(self).signals
            },
            old(self).spec_has_state(name@) ==> ServiceRegistry::spec_set_state_step(
                *old(self),
                name@,
                value@,
                *final(self),
            ),
    {
        match self.find_state(name) {
            None => Err(BusError::StateNotFound),
            Some(j) => {
                let ghost pre = *self;
                let mut entry = self.states.remove(j);
                entry.value = value;
                let mut frames: Vec<(String, Message)> = Vec::new();
                let mut i: usize = 0;
                while i < entry.watchers.len()
                    invariant
                        0 <= i <= entry.watchers@.len(),
                        frames@.len() == i,
                        forall|k: int|
                            0 <= k < i ==> frames@[k].0@ == entry.watchers@[k].peer@
                                && frames@[k].1@.seq == entry.watchers@[k].seq
                                && frames@[k].1@.body == BodyView::Response(
                                ResponseView::StateChanged(entry.value@),
                            ),
                    decreases entry.watchers@.len() - i,
                {
                    let w = &entry.watchers[i];
                    let push_value = slice_to_vec(entry.value.as_slice());
                    frames.push(
                        (
                            w.peer.clone(),
                            Message::new(
                                w.seq,
                                MessageBody::Response(Response::StateChanged(push_value)),
                            ),
                        ),
                    );
                    i = i + 1;
                }
                self.states.insert(j, entry);
                proof {
                    pre.states@.remove_ensures(j as int);
                    pre.states@.remove(j as int).insert_ensures(j as int, self.states@[j as int]);
                    assert forall|i2: int|
                        0 <= i2 < self.states@.len() && i2 != j implies self.states@[i2]
                        == pre.states@[i2] by {
                        if i2 < j {
                            assert(self.states@[i2] == pre.states@.remove(j as int)[i2]);
                        } else {
                            assert(self.states@[i2] == pre.states@.remove(j as int)[i2 - 1]);
                        }
                    }
                    assert(self.states@.len() == pre.states@.len());
                    assert(self.states@[j as int].name@ == name@);
                    assert(self.states@[j as int].watchers == pre.states@[j as int].watchers);
                    assert forall|m: Seq<char>|
                        final(self).spec_has_state(m) == pre.spec_has_state(m) by {
                        assert forall|i2: int|
                            0 <= i2 < self.states@.len() implies self.states@[i2].name@
                            == pre.states@[i2].name@ by {}
                    }
                    assert(pre.spec_state_index(name@) == j as int);
                    assert(self.spec_state_index(name@) == j as int);
                    assert(self.spec_state_watchers(name@) =~= pre.spec_state_watchers(name@));
                    assert forall|m: Seq<char>|
                        m != name@ && pre.spec_has_state(m) implies self.spec_state_value(m)
                        == pre.spec_state_value(m) && self.spec_state_watchers(m)
                        == pre.spec_state_watchers(m) by {
                        let i_old = pre.spec_state_index(m);
                        assert(0 <= i_old < pre.states@.len() && pre.states@[i_old].name@ == m);
                        assert(i_old != j);
                        assert(self.states@[i_old].name@ == m);
                        assert(self.spec_has_state(m));
                        let i_new = self.spec_state_index(m);
                        assert(0 <= i_new < self.states@.len() && self.states@[i_new].name@
                            == m);
                        assert(i_new == i_old);
                        assert(self.states@[i_new] == pre.states@[i_old]);
                    }
                }
                Ok(frames)
            },
        }
    }

    /// Address one `Signal` push carrying `payload` to every subscriber of
    /// the named signal, in subscription order, each under its
    /// subscriber's `seq`. The registry itself does not change.
    pub fn emit_signal(&self, name: &String, payload: &Payload) -> (r: Result<
        Vec<(String, Message)>,
        BusError,
    >)
        requires
            self.wf(),
        ensures
            match r {
                Ok(frames) => {
                    &&& self.spec_has_signal(name@)
                    &&& frames@.len() == self.spec_signal_subs(name@).len()
                    &&& forall|i: int|
                        0 <= i < frames@.len() ==> frames@[i].0@ == self.spec_signal_subs(
                            name@,
                        )[i].0 && frames@[i].1@.seq == self.spec_signal_subs(name@)[i].1
                            && frames@[i].1@.body == BodyView::Response(
                            ResponseView::Signal(payload@),
                        )
                },
                Err(e) => e == BusError::SignalNotFound && !self.spec_has_signal(name@),
            },
    {
        match self.find_signal(name) {
            None => Err(BusError::SignalNotFound),
            Some(j) => {
                proof {
                    assert(self.spec_has_signal(name@));
                    assert(self.spec_signal_index(name@) == j as int);
                }
                let subs = &self.signals[j].subscribers;
                let mut frames: Vec<(String, Message)> = Vec::new();
                let mut i: usize = 0;
                while i < subs.len()
                    invariant
                        0 <= i <= subs@.len(),
                        subs@ == self.signals@[j as int].subscribers@,
                        j < self.signals@.len(),
                        frames@.len() == i,
                        forall|k: int|
                            0 <= k < i ==> frames@[k].0@ == subs@[k].peer@ && frames@[k].1@.seq
                                == subs@[k].seq && frames@[k].1@.body == BodyView::Response(
                                ResponseView::Signal(payload@),
                            ),
                    decreases subs@.len() - i,
                {
                    let w = &subs[i];
                    let push_value = slice_to_vec(payload.as_slice());
                    frames.push(
                        (
                            w.peer.clone(),
                            Message::new(
                                w.seq,
                                MessageBody::Response(Response::Signal(push_value)),
                            ),
                        ),
                    );
                    i = i + 1;
                }
                Ok(frames)
            },
        }
    }
}

/// A subscription record that outlives its peer is dead weight: this
/// predicate keeps exactly the records of other peers.
pub open spec fn spec_keeps(peer: Seq<char>) -> spec_fn(Subscriber) -> bool {
    |s: Subscriber| s.peer@ != peer
}

impl ServiceRegistry {
    /// Drop every subscription record held for `peer`, across all signals
    /// and states — the cancellation a subscriber's disconnection calls
    /// for. Names, handlers, cached values and everyone else's records
    /// are untouched, in order.
    pub fn remove_peer(&mut self, peer: &String)
        requires
            old(self).wf(),
        ensures
            final(self).wf(),
            final(self).methods == old(self).methods,
            final(self).signals@.len() == old(self).signals@.len(),
            final(self).states@.len() == old(self).states@.len(),
            forall|i: int|
                0 <= i < old(self).signals@.len() ==> final(self).signals@[i].name == old(
                    self,
                ).signals@[i].name && final(self).signals@[i].subscribers@ == old(
                    self,
                ).signals@[i].subscribers@.filter(spec_keeps(peer@)),
            forall|i: int|
                0 <= i < old(self).states@.len() ==> final(self).states@[i].name == old(
                    self,
                ).states@[i].name && final(self).states@[i].value == old(self).states@[i].value
                    && final(self).states@[i].watchers@ == old(self).states@[i].watchers@.filter(
                    spec_keeps(peer@),
                ),
    {
        let ghost pre = *self;
        let mut j: usize = 0;
        while j < self.signals.len()
            invariant
                pre == *old(self),
                pre.wf(),
                self.methods == pre.methods,
                self.states == pre.states,
                0 <= j <= self.signals@.len(),
                self.signals@.len() == pre.signals@.len(),
                forall|k: int|
                    j <= k < self.signals@.len() ==> self.signals@[k] == pre.signals@[k],
                forall|k: int|
                    0 <= k < j ==> self.signals@[k].name == pre.signals@[k].name
                        && self.signals@[k].subscribers@ == pre.signals@[k].subscribers@.filter(
                        spec_keeps(peer@),
                    ),
            decreases self.signals@.len() - j,
        {
            let mut entry = self.signals.remove(j);
            let kept = keep_other_subscribers(&entry.subscribers, peer);
            entry.subscribers = kept;
            self.signals.insert(j, entry);
            proof {
                pre.signals@.remove_ensures(j as int);
            }
            j = j + 1;
        }
        let mut j2: usize = 0;
        while j2 < self.states.len()
            invariant
                pre == *old(self),
                pre.wf(),
                self.methods == pre.methods,
                0 <= j2 <= self.states@.len(),
                self.states@.len() == pre.states@.len(),
                self.signals@.len() == pre.signals@.len(),
                forall|k: int|
                    0 <= k < self.signals@.len() ==> self.signals@[k].name == pre.signals@[
                        k
                    ].name && self.signals@[k].subscribers@ == pre.signals@[
                        k
                    ].subscribers@.filter(spec_keeps(peer@)),
                forall|k: int| j2 <= k < self.states@.len() ==> self.states@[k] == pre.states@[k],
                forall|k: int|
                    0 <= k < j2 ==> self.states@[k].name == pre.states@[k].name
                        && self.states@[k].value == pre.states@[k].value && self.states@[
                        k
                    ].watchers@ == pre.states@[k].watchers@.filter(spec_keeps(peer@)),
            decreases self.states@.len() - j2,
        {
            let mut entry = self.states.remove(j2);
            let kept = keep_other_subscribers(&entry.watchers, peer);
            entry.watchers = kept;
            self.states.insert(j2, entry);
            proof {
                pre.states@.remove_ensures(j2 as int);
            }
            j2 = j2 + 1;
        }
        proof {
            assert forall|x: int, y: int|
                0 <= x < self.signals@.len() && 0 <= y < self.signals@.len() && x
                    != y implies self.signals@[x].name@ != self.signals@[y].name@ by {
                assert(self.signals@[x].name == pre.signals@[x].name);
                assert(self.signals@[y].name == pre.signals@[y].name);
            }
            assert forall|x: int, y: int|
                0 <= x < self.states@.len() && 0 <= y < self.states@.len() && x
                    != y implies self.states@[x].name@ != self.states@[y].name@ by {
                assert(self.states@[x].name == pre.states@[x].name);
                assert(self.states@[y].name == pre.states@[y].name);
            }
        }
    }
}

/// The records of every peer but `peer`, in their original order.
fn keep_other_subscribers(subs: &Vec<Subscriber>, peer: &String) -> (r: Vec<Subscriber>)
    ensures
        r@ == subs@.filter(spec_keeps(peer@)),
{
    let mut kept: Vec<Subscriber> = Vec::new();
    let mut i: usize = 0;
    proof {
        assert(subs@.take(0).filter(spec_keeps(peer@)) =~= kept@);
    }
    while i < subs.len()
        invariant
            0 <= i <= subs@.len(),
            kept@ == subs@.take(i as int).filter(spec_keeps(peer@)),
        decreases subs@.len() - i,
    {
        proof {
            reveal_with_fuel(Seq::<Subscriber>::filter, 2);
            assert(subs@.take(i as int + 1).drop_last() =~= subs@.take(i as int));
            assert(subs@.take(i as int + 1).last() == subs@[i as int]);
        }
        let s = &subs[i];
        if !(s.peer == *peer) {
            kept.push(Subscriber { peer: s.peer.clone(), seq: s.seq });
            proof {
                assert(Subscriber { peer: s.peer, seq: s.seq } == subs@[i as int]);
            }
        }
        i = i + 1;
    }
    proof {
        assert(subs@.take(subs@.len() as int) =~= subs@);
    }
    kept
}

/// Subscription termination, publisher side: once a departed peer's
/// records are dropped — [`ServiceRegistry::remove_peer`], run when the
/// session to that peer ends on either side — no signal subscriber and no
/// state watcher for that peer remains anywhere in the registry, so no
/// further push is ever addressed to it. (On the subscriber's own side,
/// closing the session completes every slot; see
/// [`crate::peer_connection::lemma_close_completes_all`].)
pub proof fn lemma_removed_peer_has_no_records(
    pre: ServiceRegistry,
    post: ServiceRegistry,
    peer: Seq<char>,
)
    requires
        post.signals@.len() == pre.signals@.len(),
        post.states@.len() == pre.states@.len(),
        forall|i: int|
            0 <= i < pre.signals@.len() ==> post.signals@[i].subscribers@ == pre.signals@[
                i
            ].subscribers@.filter(spec_keeps(peer)),
        forall|i: int|
            0 <= i < pre.states@.len() ==> post.states@[i].watchers@ == pre.states@[
                i
            ].watchers@.filter(spec_keeps(peer)),
    ensures
        forall|i: int, k: int|
            0 <= i < post.signals@.len() && 0 <= k < post.signals@[i].subscribers@.len()
                ==> post.signals@[i].subscribers@[k].peer@ != peer,
        forall|i: int, k: int|
            0 <= i < post.states@.len() && 0 <= k < post.states@[i].watchers@.len()
                ==> post.states@[i].watchers@[k].peer@ != peer,
{
    assert forall|i: int, k: int|
        0 <= i < post.signals@.len() && 0 <= k < post.signals@[i].subscribers@.len()
            implies post.signals@[i].subscribers@[k].peer@ != peer by {
        pre.signals@[i].subscribers@.lemma_filter_pred(spec_keeps(peer), k);
    }
    assert forall|i: int, k: int|
        0 <= i < post.states@.len() && 0 <= k < post.states@[i].watchers@.len()
            implies post.states@[i].watchers@[k].peer@ != peer by {
        pre.states@[i].watchers@.lemma_filter_pred(spec_keeps(peer), k);
    }
}

/// What the pump must do after handing one peer-initiated frame to the
/// dispatcher.
pub enum DispatchOutcome {
    /// Run the numbered handler on `params` and answer its output under
    /// `seq` with a `Return` frame.
    Invoke { handler: u64, seq: u64, params: Payload },
    /// Write this response frame back to the peer.
    Reply(Message),
    /// The peer announced graceful teardown: drain the session; there is
    /// nothing to write back.
    ShutdownPeer,
}

impl ServiceRegistry {
    /// One `set` of a state, as a relation between the registry before and
    /// after: the named cache now reads the written value, its watchers
    /// and every other state are untouched.
    pub open spec fn spec_set_state_step(
        pre: ServiceRegistry,
        n: Seq<char>,
        v: Seq<u8>,
        post: ServiceRegistry,
    ) -> bool {
        &&& post.spec_state_value(n) == v
        &&& post.spec_state_watchers(n) == pre.spec_state_watchers(n)
        &&& forall|m: Seq<char>| post.spec_has_state(m) == pre.spec_has_state(m)
        &&& forall|m: Seq<char>|
            m != n && pre.spec_has_state(m) ==> post.spec_state_value(m)
                == pre.spec_state_value(m)
    }

    /// Answer one peer-initiated frame out of the registry.
    ///
    /// A method call on a registered method hands the handler exactly the
    /// call's payload; an unknown method is answered `MethodNotFound`. A
    /// `Subscribe` or `Watch` records the subscription under the frame's
    /// `seq` and is acknowledged — with the cached value for a watch. A
    /// hub-directed or uncorrelated frame is answered `InvalidMessage`,
    /// and a peer's `Shutdown` starts draining. Every reply echoes the
    /// incoming `seq`.
    pub fn dispatch(&mut self, msg: &Message, peer: &String) -> (o: DispatchOutcome)
        requires
            old(self).wf(),
        ensures
            final(self).wf(),
            match msg@.body {
                BodyView::MethodCall(t, m, p) => {
                    &&& *final(self) == *old(self)
                    &&& if old(self).spec_has_method(m) {
                        o matches DispatchOutcome::Invoke { handler, seq, params }
                            && handler == old(self).spec_method_handler(m) && seq == msg@.seq
                            && params@ == p
                    } else {
                        o matches DispatchOutcome::Reply(rep) && rep@.seq == msg@.seq
                            && rep@.body == BodyView::Response(
                            ResponseView::Error(BusError::MethodNotFound),
                        )
                    }
                },
                BodyView::Subscribe(n) => {
                    &&& if old(self).spec_has_signal(n) {
                        &&& o matches DispatchOutcome::Reply(rep) && rep@.seq == msg@.seq
                            && rep@.body == BodyView::Response(ResponseView::Success)
                        &&& final(self).spec_signal_subs(n) == old(self).spec_signal_subs(
                            n,
                        ).push((peer@, msg@.seq))
                        &&& forall|m: Seq<char>|
                            final(self).spec_has_signal(m) == old(self).spec_has_signal(m)
                        &&& forall|m: Seq<char>|
                            m != n && old(self).spec_has_signal(m) ==> final(self).spec_signal_subs(m) == old(self).spec_signal_subs(m)
                        &&& final(self).methods == old(self).methods
                        &&& final(self).states == old(self).states
                    } else {
                        &&& o matches DispatchOutcome::Reply(rep) && rep@.seq == msg@.seq
                            && rep@.body == BodyView::Response(
                            ResponseView::Error(BusError::SignalNotFound),
                        )
                        &&& *final(self) == *old(self)
                    }
                },
                BodyView::Watch(n) => {
                    &&& if old(self).spec_has_state(n) {
                        &&& o matches DispatchOutcome::Reply(rep) && rep@.seq == msg@.seq
                            && rep@.body == BodyView::Response(
                            ResponseView::StateChanged(old(self).spec_state_value(n)),
                        )
                        &&& final(self).spec_state_value(n) == old(self).spec_state_value(n)
                        &&& final(self).spec_state_watchers(n) == old(
                            self,
                        ).spec_state_watchers(n).push((peer@, msg@.seq))
                        &&& forall|m: Seq<char>|
                            final(self).spec_has_state(m) == old(self).spec_has_state(m)
                        &&& final(self).methods == old(self).methods
                        &&& final(self).signals == old(self).signals
                    } else {
                        &&& o matches DispatchOutcome::Reply(rep) && rep@.seq == msg@.seq
                            && rep@.body == BodyView::Response(
                            ResponseView::Error(BusError::StateNotFound),
                        )
                        &&& *final(self) == *old(self)
                    }
                },
                BodyView::Response(r) => {
                    &&& *final(self) == *old(self)
                    &&& if r is Shutdown {
                        o == DispatchOutcome::ShutdownPeer
                    } else {
                        o matches DispatchOutcome::Reply(rep) && rep@.seq == msg@.seq
                            && rep@.body == BodyView::Response(
                            ResponseView::Error(BusError::InvalidMessage),
                        )
                    }
                },
                _ => {
                    &&& *final(self) == *old(self)
                    &&& o matches DispatchOutcome::Reply(rep) && rep@.seq == msg@.seq
                        && rep@.body == BodyView::Response(
                        ResponseView::Error(BusError::InvalidMessage),
                    )
                },
            },
    {
        let seq = msg.seq();
        match msg.body() {
            MessageBody::MethodCall(_target, m, p) => match self.lookup_method(m) {
                Some(handler) => DispatchOutcome::Invoke {
                    handler,
                    seq,
                    params: slice_to_vec(p.as_slice()),
                },
                None => DispatchOutcome::Reply(into_message(BusError::MethodNotFound, seq)),
            },
            MessageBody::Subscribe(n) => match self.subscribe_signal(n, peer, seq) {
                Ok(_) => DispatchOutcome::Reply(Message::new_success(seq)),
                Err(e) => DispatchOutcome::Reply(into_message(e, seq)),
            },
            MessageBody::Watch(n) => match self.watch_state(n, peer, seq) {
                Ok(value) => DispatchOutcome::Reply(
                    Message::new(seq, MessageBody::Response(Response::StateChanged(value))),
                ),
                Err(e) => DispatchOutcome::Reply(into_message(e, seq)),
            },
            MessageBody::Response(Response::Shutdown(_)) => DispatchOutcome::ShutdownPeer,
            _ => DispatchOutcome::Reply(into_message(BusError::InvalidMessage, seq)),
        }
    }
}

/// State freshness: once a `set` of `n` to `v` has taken effect, the cache
/// reads `v` — and keeps reading `v` until the next `set` of `n`, since
/// only a `set` of `n` changes that cache.
pub proof fn lemma_state_freshness(
    pre: ServiceRegistry,
    post: ServiceRegistry,
    n: Seq<char>,
    v: Seq<u8>,
)
    requires
        ServiceRegistry::spec_set_state_step(pre, n, v, post),
    ensures
        post.spec_state_value(n) == v,
{
}

/// A method call returns what the handler produced: the dispatcher hands
/// the registered handler exactly the call's payload (the `Invoke` case
/// of [`ServiceRegistry::dispatch`]), and the `Return` frame the pump
/// writes for the handler's output makes the caller's `call` yield that
/// output — modulo the payload serialization around the bus.
pub proof fn lemma_call_returns_handler_result(s: u64, out: Seq<u8>)
    ensures
        crate::peer_connection::spec_call_result(
            crate::messages::MessageView {
                seq: s,
                body: BodyView::Response(ResponseView::Return(out)),
            },
        ) == Ok::<Seq<u8>, BusError>(out),
{
}

} // verus!
