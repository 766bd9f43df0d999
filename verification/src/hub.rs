//! The hub: the central broker that authenticates registering clients
//! against their policy files and introduces peers to each other.
//!
//! The hub's state is nothing but the set of registered names. Its two
//! decisions — may this client register, may this client be introduced to
//! that service — are pure functions of that set and of the policy file
//! the surrounding process read for the name in question. Socket pairs
//! are created and handed out by the transport after a positive decision;
//! the hub state never holds them.

use vstd::prelude::*;
use vstd::slice::slice_index_get;
use vstd::string::StrSliceExecFns;
use vstd::utf8::encode_utf8;
use crate::errors::BusError;
use crate::messages::{Message, BodyView, ResponseView};

verus! {

/// The contents of one `<name>.service` policy file: the glob the
/// service's executable path must match, and the allow-list of services
/// that may open a peer session to it.
pub struct ServicePolicy {
    pub exec_pattern: String,
    pub incoming_connections: Vec<String>,
}

/// Bytewise glob matching: `*` matches any run of bytes, `?` matches one
/// byte, anything else matches itself.
pub open spec fn spec_glob_match(p: Seq<u8>, t: Seq<u8>) -> bool
    decreases p.len() + t.len(),
{
    if p.len() == 0 {
        t.len() == 0
    } else if p[0] == 42u8 {
        spec_glob_match(p.skip(1), t) || (t.len() > 0 && spec_glob_match(p, t.skip(1)))
    } else {
        t.len() > 0 && (p[0] == 63u8 || p[0] == t[0]) && spec_glob_match(p.skip(1), t.skip(1))
    }
}

/// Match the pattern suffix starting at `pi` against the text suffix
/// starting at `ti`.
fn glob_match_at(p: &[u8], t: &[u8], pi: usize, ti: usize) -> (r: bool)
    requires
        pi <= p@.len(),
        ti <= t@.len(),
    ensures
        r == spec_glob_match(p@.skip(pi as int), t@.skip(ti as int)),
    decreases p@.len() - pi + t@.len() - ti,
{
    proof {
        assert(p@.skip(pi as int).len() == p@.len() - pi);
        assert(t@.skip(ti as int).len() == t@.len() - ti);
    }
    if pi == p.len() {
        return ti == t.len();
    }
    let c = *slice_index_get(p, pi);
    proof {
        assert(p@.skip(pi as int)[0] == p@[pi as int]);
        assert(p@.skip(pi as int).skip(1) =~= p@.skip(pi as int + 1));
    }
    if c == 42u8 {
        if glob_match_at(p, t, pi + 1, ti) {
            return true;
        }
        if ti < t.len() {
            proof {
                assert(t@.skip(ti as int).skip(1) =~= t@.skip(ti as int + 1));
            }
            return glob_match_at(p, t, pi, ti + 1);
        }
        return false;
    }
    if ti == t.len() {
        return false;
    }
    let tc = *slice_index_get(t, ti);
    proof {
        assert(t@.skip(ti as int)[0] == t@[ti as int]);
        assert(t@.skip(ti as int).skip(1) =~= t@.skip(ti as int + 1));
    }
    if c == 63u8 || c == tc {
        glob_match_at(p, t, pi + 1, ti + 1)
    } else {
        false
    }
}

/// Whether `text` matches the glob `pattern`, byte by byte over their
/// UTF-8 encodings.
pub fn glob_match(pattern: &String, text: &String) -> (r: bool)
    ensures
        r == spec_glob_match(encode_utf8(pattern@), encode_utf8(text@)),
{
    let pb = pattern.as_str().as_bytes();
    let tb = text.as_str().as_bytes();
    proof {
        assert(pb@.skip(0) =~= pb@);
        assert(tb@.skip(0) =~= tb@);
    }
    glob_match_at(pb, tb, 0, 0)
}

/// Whether a policy admits a registration: a policy file must exist, and
/// — where the platform reports peer credentials — the client's
/// executable path must match the policy's glob.
pub open spec fn spec_policy_admits(
    policy: Option<ServicePolicy>,
    exec_path: Seq<char>,
    exec_check: bool,
) -> bool {
    match policy {
        Some(pol) => !exec_check || spec_glob_match(
            encode_utf8(pol.exec_pattern@),
            encode_utf8(exec_path),
        ),
        None => false,
    }
}

/// The hub's whole state: the currently registered service names, each at
/// most once.
pub struct HubState {
    pub registered: Vec<String>,
}

impl HubState {
    /// The registered names, as character sequences, in registration order.
    pub open spec fn spec_names(self) -> Seq<Seq<char>> {
        self.registered@.map_values(|s: String| s@)
    }

    /// A service is registered under this name.
    pub open spec fn spec_is_registered(self, n: Seq<char>) -> bool {
        exists|i: int| 0 <= i < self.registered@.len() && self.registered@[i]@ == n
    }

    /// Well-formed hub: no name registered twice.
    pub open spec fn wf(self) -> bool {
        forall|i: int, j: int|
            0 <= i < self.registered@.len() && 0 <= j < self.registered@.len() && i != j
                ==> self.registered@[i]@ != self.registered@[j]@
    }

    /// One registration attempt, as a relation between the hub before and
    /// after: a client its policy does not admit is turned away; a name
    /// already registered is refused; otherwise the name joins the set.
    pub open spec fn spec_register_step(
        pre: HubState,
        n: Seq<char>,
        admitted: bool,
        post: HubState,
        r: Result<(), BusError>,
    ) -> bool {
        if !admitted {
            r == Err::<(), BusError>(BusError::ServiceNotAllowed) && post == pre
        } else if pre.spec_is_registered(n) {
            r == Err::<(), BusError>(BusError::NameTaken) && post == pre
        } else {
            r == Ok::<(), BusError>(()) && post.spec_names() == pre.spec_names().push(n)
        }
    }

    /// What a `Connect` from `requester` to `target` is answered, given
    /// the allow-list read from the target's policy file: an unregistered
    /// target is `ServiceNotFound`; a requester the target's
    /// `incoming_connections` does not list is `PermissionDenied`;
    /// otherwise the introduction is made.
    pub open spec fn spec_connect_decision(
        self,
        requester: Seq<char>,
        target: Seq<char>,
        incoming: Option<Seq<Seq<char>>>,
    ) -> Result<(), BusError> {
        if !self.spec_is_registered(target) {
            Err(BusError::ServiceNotFound)
        } else {
            match incoming {
                Some(list) => if list.contains(requester) {
                    Ok(())
                } else {
                    Err(BusError::PermissionDenied)
                },
                None => Err(BusError::PermissionDenied),
            }
        }
    }

    /// A hub with nothing registered.
    pub fn new() -> (h: HubState)
        ensures
            h.registered@.len() == 0,
            h.wf(),
    {
        HubState { registered: Vec::new() }
    }

    /// The index under which `name` is registered, if any.
    fn find_name(&self, name: &String) -> (r: Option<usize>)
        ensures
            match r {
                Some(i) => 0 <= i < self.registered@.len() && self.registered@[i as int]@
                    == name@,
                None => !self.spec_is_registered(name@),
            },
    {
        let mut i: usize = 0;
        while i < self.registered.len()
            invariant
                0 <= i <= self.registered@.len(),
                forall|j: int| 0 <= j < i ==> self.registered@[j]@ != name@,
            decreases self.registered@.len() - i,
        {
            if self.registered[i] == *name {
                return Some(i);
            }
            i = i + 1;
        }
        None
    }

    /// Decide one `Register` handshake. `policy` is the client's policy
    /// file as the process read it (`None` where no file exists), and
    /// `exec_path` the client executable's path from peer credentials;
    /// `exec_check` is false on platforms without peer credentials, where
    /// exec matching degrades to always-match.
    pub fn handle_register(
        &mut self,
        name: &String,
        policy: Option<&ServicePolicy>,
        exec_path: &String,
        exec_check: bool,
    ) -> (r: Result<(), BusError>)
        requires
            old(self).wf(),
        ensures
            final(self).wf(),
            HubState::spec_register_step(
                *old(self),
                name@,
                spec_policy_admits(
                    match policy {
                        Some(p) => Some(*p),
                        None => None,
                    },
                    exec_path@,
                    exec_check,
                ),
                *final(self),
                r,
            ),
    {
        let admitted: bool = match policy {
            Some(pol) => {
                if exec_check {
                    glob_match(&pol.exec_pattern, exec_path)
                } else {
                    true
                }
            },
            None => false,
        };
        if !admitted {
            return Err(BusError::ServiceNotAllowed);
        }
        match self.find_name(name) {
            Some(_) => Err(BusError::NameTaken),
            None => {
                self.registered.push(name.clone());
                proof {
                    assert(self.spec_names() =~= old(self).spec_names().push(name@));
                }
                Ok(())
            },
        }
    }

    /// Decide one `Connect` request, per [`Self::spec_connect_decision`].
    ///
    /// The hub is read, never written: a successful decision hands the
    /// introduction to the transport, which creates the socket pair and
    /// sends one half to each peer; the hub state holds names only and
    /// retains no part of the pair.
    pub fn handle_connect(
        &self,
        requester: &String,
        target: &String,
        target_policy: Option<&ServicePolicy>,
    ) -> (r: Result<(), BusError>)
        ensures
            r == self.spec_connect_decision(
                requester@,
                target@,
                match target_policy {
                    Some(p) => Some(p.incoming_connections@.map_values(|s: String| s@)),
                    None => None,
                },
            ),
    {
        match self.find_name(target) {
            None => Err(BusError::ServiceNotFound),
            Some(_) => {
                proof {
                    assert(self.spec_is_registered(target@));
                }
                match target_policy {
                    None => Err(BusError::PermissionDenied),
                    Some(pol) => {
                        let ghost list = pol.incoming_connections@.map_values(|s: String| s@);
                        let mut i: usize = 0;
                        while i < pol.incoming_connections.len()
                            invariant
                                self.spec_is_registered(target@),
                                target_policy == Some(pol),
                                list == pol.incoming_connections@.map_values(
                                    |s: String| s@,
                                ),
                                0 <= i <= pol.incoming_connections@.len(),
                                forall|j: int| 0 <= j < i ==> list[j] != requester@,
                            decreases pol.incoming_connections@.len() - i,
                        {
                            if pol.incoming_connections[i] == *requester {
                                proof {
                                    assert(list[i as int] == requester@);
                                    assert(list.contains(requester@));
                                }
                                return Ok(());
                            }
                            i = i + 1;
                        }
                        proof {
                            assert forall|j: int| 0 <= j < list.len() implies list[j]
                                != requester@ by {}
                            assert(!list.contains(requester@));
                        }
                        Err(BusError::PermissionDenied)
                    },
                }
            },
        }
    }

    /// Forget a registration when its client disconnects. Nothing is
    /// notified: peers discover a disconnection on their direct sockets.
    pub fn handle_disconnect(&mut self, name: &String)
        requires
            old(self).wf(),
        ensures
            final(self).wf(),
            !final(self).spec_is_registered(name@),
            forall|m: Seq<char>|
                m != name@ ==> final(self).spec_is_registered(m) == old(
                    self,
                ).spec_is_registered(m),
    {
        let ghost pre = *self;
        match self.find_name(name) {
            None => {
            },
            Some(j) => {
                self.registered.remove(j);
                proof {
                    pre.registered@.remove_ensures(j as int);
                    assert forall|k: int|
                        0 <= k < self.registered@.len() implies self.registered@[k]@
                        != name@ by {
                        if k < j {
                            assert(self.registered@[k] == pre.registered@[k]);
                        } else {
                            assert(self.registered@[k] == pre.registered@[k + 1]);
                        }
                    }
                    assert forall|m: Seq<char>|
                        m != name@ implies self.spec_is_registered(m) == pre.spec_is_registered(
                        m,
                    ) by {
                        if pre.spec_is_registered(m) {
                            let x = choose|x: int|
                                0 <= x < pre.registered@.len() && pre.registered@[x]@ == m;
                            if x < j {
                                assert(self.registered@[x] == pre.registered@[x]);
                            } else {
                                assert(self.registered@[x - 1] == pre.registered@[x]);
                            }
                        }
                        if self.spec_is_registered(m) {
                            let x = choose|x: int|
                                0 <= x < self.registered@.len() && self.registered@[x]@ == m;
                            if x < j {
                                assert(pre.registered@[x] == self.registered@[x]);
                            } else {
                                assert(pre.registered@[x + 1] == self.registered@[x]);
                            }
                        }
                    }
                    assert forall|x: int, y: int|
                        0 <= x < self.registered@.len() && 0 <= y < self.registered@.len() && x
                            != y implies self.registered@[x]@ != self.registered@[y]@ by {
                        let ox = if x < j {
                            x
                        } else {
                            x + 1
                        };
                        let oy = if y < j {
                            y
                        } else {
                            y + 1
                        };
                        assert(self.registered@[x] == pre.registered@[ox]);
                        assert(self.registered@[y] == pre.registered@[oy]);
                    }
                }
            },
        }
    }
}

/// The two frames a successful introduction sends: `Success` under the
/// requester's `seq` (its half of the socket pair rides along as ancillary
/// data), and a synthesized `Connect` naming the requester, delivered to
/// the target with the other half. Both must be delivered, or neither
/// side keeps a half.
pub fn broker_messages(requester: &String, reply_seq: u64, intro_seq: u64) -> (r: (
    Message,
    Message,
))
    ensures
        r.0@.seq == reply_seq,
        r.0@.body == BodyView::Response(ResponseView::Success),
        r.1@.seq == intro_seq,
        r.1@.body == BodyView::Connect(requester@),
{
    (Message::new_success(reply_seq), Message::new_connect(intro_seq, requester.clone()))
}

/// Exclusive names: with the same name attempted twice against a hub that
/// does not hold it — two clients racing to register, serialized by the
/// hub's lock — the first attempt succeeds and the second is refused with
/// `NameTaken`: exactly one client wins.
pub proof fn lemma_register_exclusive(
    h0: HubState,
    h1: HubState,
    h2: HubState,
    n: Seq<char>,
    r1: Result<(), BusError>,
    r2: Result<(), BusError>,
)
    requires
        !h0.spec_is_registered(n),
        HubState::spec_register_step(h0, n, true, h1, r1),
        HubState::spec_register_step(h1, n, true, h2, r2),
    ensures
        r1 == Ok::<(), BusError>(()),
        r2 == Err::<(), BusError>(BusError::NameTaken),
{
    assert(h1.spec_names() == h0.spec_names().push(n));
    assert(h1.spec_names()[h0.spec_names().len() as int] == n);
    assert(h1.registered@[h0.spec_names().len() as int]@ == n);
    assert(h1.spec_is_registered(n));
}

} // verus!
