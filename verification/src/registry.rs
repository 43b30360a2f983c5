//! The shared client registry: a mapping from client id to per-client state,
//! in registration order. The host serializes access with one lock; under
//! that lock every operation here is atomic, so the contracts below describe
//! exactly what each command or broadcast does to every client.

use vstd::prelude::*;
use vstd::string::StringExecFns;

use crate::error::ChatError;
use crate::shared_state::{enqueue_spec, SharedClientState, SINK_CAPACITY};
use crate::text::{eq_ignore_case, seq_eq_ci};

verus! {

/// The mathematical snapshot of one registered client.
#[verifier::ext_equal]
pub ghost struct ClientView {
    pub id: u32,
    pub nickname: Seq<char>,
    pub muted: bool,
    pub outbound: Seq<Seq<char>>,
}

/// No id occurs twice.
pub open spec fn unique_ids(s: Seq<ClientView>) -> bool {
    forall|i: int, j: int| 0 <= i < j < s.len() ==> s[i].id != s[j].id
}

/// Every outbound queue respects its capacity.
pub open spec fn bounded_queues(s: Seq<ClientView>) -> bool {
    forall|i: int| 0 <= i < s.len() ==> s[i].outbound.len() <= SINK_CAPACITY
}

/// Well-formed registry contents.
pub open spec fn views_wf(s: Seq<ClientView>) -> bool {
    unique_ids(s) && bounded_queues(s)
}

/// Some client carries this id.
pub open spec fn seq_contains_id(s: Seq<ClientView>, id: u32) -> bool {
    exists|i: int| 0 <= i < s.len() && s[i].id == id
}

/// The position of the client with this id (meaningful under `unique_ids`
/// when the id is present).
pub open spec fn seq_index_of(s: Seq<ClientView>, id: u32) -> int {
    choose|i: int| 0 <= i < s.len() && s[i].id == id
}

/// The position of the first client whose nickname equals `name` up to ASCII
/// case, scanning from position `i`.
pub open spec fn match_from(s: Seq<ClientView>, name: Seq<char>, i: int) -> Option<int>
    decreases s.len() - i,
{
    if i < 0 || i >= s.len() {
        None
    } else if seq_eq_ci(s[i].nickname, name) {
        Some(i)
    } else {
        match_from(s, name, i + 1)
    }
}

/// The position of the first client whose nickname equals `name` up to ASCII
/// case.
pub open spec fn first_ci_match(s: Seq<ClientView>, name: Seq<char>) -> Option<int> {
    match_from(s, name, 0)
}

/// What `first_ci_match` finds: a match with no earlier match, or nothing
/// when no nickname matches.
pub proof fn lemma_first_ci_match(s: Seq<ClientView>, name: Seq<char>, i: int)
    requires
        0 <= i <= s.len(),
    ensures
        match_from(s, name, i) matches Some(ix) ==> i <= ix < s.len() && seq_eq_ci(
            s[ix].nickname,
            name,
        ) && (forall|j: int| i <= j < ix ==> !seq_eq_ci(s[j].nickname, name)),
        match_from(s, name, i) is None ==> forall|j: int|
            i <= j < s.len() ==> !seq_eq_ci(s[j].nickname, name),
    decreases s.len() - i,
{
    if i < s.len() && !seq_eq_ci(s[i].nickname, name) {
        lemma_first_ci_match(s, name, i + 1);
    }
}

/// What a broadcast of `line` does to one client's snapshot: the line is
/// offered to its queue unless the client is the excluded sender.
pub open spec fn after_broadcast(pre: ClientView, excluding: Option<u32>, line: Seq<char>) -> ClientView {
    ClientView {
        outbound: (if excluding == Some(pre.id) {
            pre.outbound
        } else {
            enqueue_spec(pre.outbound, line)
        }),
        ..pre
    }
}

/// The registry after one line was offered to the sender's queue and nothing
/// else happened: membership and order are unchanged, every other client is
/// untouched, and the sender's queue took the line (or dropped it when full).
pub open spec fn only_sender_enqueued(
    pre: &ClientRegistry,
    post: &ClientRegistry,
    sender: u32,
    line: Seq<char>,
) -> bool {
    &&& forall|c: u32| post.contains_id(c) == pre.contains_id(c)
    &&& post@.len() == pre@.len()
    &&& (!pre.contains_id(sender) ==> post@ == pre@)
    &&& (pre.contains_id(sender) ==> post.client_at(sender) == (ClientView {
        outbound: enqueue_spec(pre.outbound_of(sender), line),
        ..pre.client_at(sender)
    }))
    &&& forall|c: u32| c != sender && pre.contains_id(c) ==> post.client_at(c) == pre.client_at(c)
}

/// Every client other than `sender` has exactly the snapshot it had before:
/// an operation with this property touches at most the sender.
pub open spec fn others_unchanged(pre: &ClientRegistry, post: &ClientRegistry, sender: u32) -> bool {
    forall|c: u32| c != sender && pre.contains_id(c) ==> post.client_at(c) == pre.client_at(c)
}

/// When ids agree position by position, containment and positions agree for
/// every id.
proof fn lemma_same_ids(a: Seq<ClientView>, b: Seq<ClientView>)
    requires
        a.len() == b.len(),
        forall|i: int| 0 <= i < a.len() ==> a[i].id == b[i].id,
        unique_ids(a),
    ensures
        unique_ids(b),
        forall|c: u32| seq_contains_id(a, c) == seq_contains_id(b, c),
        forall|c: u32| seq_contains_id(a, c) ==> seq_index_of(a, c) == seq_index_of(b, c),
{
    assert forall|c: u32| seq_contains_id(a, c) == seq_contains_id(b, c) by {
        if seq_contains_id(a, c) {
            let i = choose|i: int| 0 <= i < a.len() && a[i].id == c;
            assert(b[i].id == c);
        }
        if seq_contains_id(b, c) {
            let i = choose|i: int| 0 <= i < b.len() && b[i].id == c;
            assert(a[i].id == c);
        }
    }
    assert forall|c: u32| seq_contains_id(a, c) implies seq_index_of(a, c) == seq_index_of(
        b,
        c,
    ) by {
        let ia = seq_index_of(a, c);
        assert(0 <= ia < a.len() && a[ia].id == c);
        assert(b[ia].id == c);
        assert(seq_contains_id(b, c));
        let ib = seq_index_of(b, c);
        assert(0 <= ib < b.len() && b[ib].id == c);
        assert(a[ib].id == c);
        if ia != ib {
            assert(false);
        }
    }
}

/// A nickname equal, up to ASCII case, to the current nickname of some other
/// client is taken: the rename validator must reject it for anyone else.
pub proof fn lemma_nickname_duplicate_taken(
    reg: &ClientRegistry,
    owner: u32,
    renamer: u32,
    name: Seq<char>,
)
    requires
        reg.wf(),
        reg.contains_id(owner),
        owner != renamer,
        seq_eq_ci(reg.nickname_of(owner), name),
    ensures
        reg.nickname_taken(name, renamer),
{
    reg.lemma_client_at(owner);
    let ix = seq_index_of(reg@, owner);
    assert(reg@[ix].id != renamer && seq_eq_ci(reg@[ix].nickname, name));
}

/// Muting an already-muted client reports no state change and leaves every
/// client's snapshot exactly as it was: the relation `mute` establishes
/// collapses to the identity.
pub proof fn lemma_mute_already_muted(
    pre: &ClientRegistry,
    post: &ClientRegistry,
    id: u32,
    changed: bool,
)
    requires
        pre.wf(),
        pre.contains_id(id),
        pre.muted_of(id),
        changed == !pre.muted_of(id),
        post.client_at(id) == (ClientView { muted: true, ..pre.client_at(id) }),
        forall|c: u32|
            c != id && pre.contains_id(c) ==> post.client_at(c) == pre.client_at(c),
        forall|c: u32| post.contains_id(c) == pre.contains_id(c),
    ensures
        !changed,
        forall|c: u32| pre.contains_id(c) ==> post.client_at(c) == pre.client_at(c),
{
    assert forall|c: u32| pre.contains_id(c) implies post.client_at(c) == pre.client_at(c) by {
        if c == id {
            assert(post.client_at(id) =~= pre.client_at(id));
        }
    }
}

/// An id that is absent from the registry appears in no membership listing:
/// no position of the registry's contents carries it.
pub proof fn lemma_unregistered_not_listed(reg: &ClientRegistry, id: u32)
    requires
        !reg.contains_id(id),
    ensures
        forall|i: int| 0 <= i < reg@.len() ==> reg@[i].id != id,
{
    assert forall|i: int| 0 <= i < reg@.len() implies reg@[i].id != id by {
        if reg@[i].id == id {
            assert(seq_contains_id(reg@, id));
        }
    }
}

struct ClientEntry {
    id: u32,
    state: SharedClientState,
}

impl ClientEntry {
    spec fn view_of(&self) -> ClientView {
        ClientView {
            id: self.id,
            nickname: self.state.spec_nickname(),
            muted: self.state.spec_muted(),
            outbound: self.state.spec_outbound(),
        }
    }
}

/// The registry itself: entries in registration order.
pub struct ClientRegistry {
    entries: Vec<ClientEntry>,
}

impl View for ClientRegistry {
    type V = Seq<ClientView>;

    closed spec fn view(&self) -> Seq<ClientView> {
        Seq::new(self.entries@.len(), |i: int| self.entries@[i].view_of())
    }
}

impl ClientRegistry {
    /// Ids are unique and queues bounded.
    pub open spec fn wf(&self) -> bool {
        views_wf(self@)
    }

    /// A client with this id is registered.
    pub open spec fn contains_id(&self, id: u32) -> bool {
        seq_contains_id(self@, id)
    }

    /// The snapshot of the client with this id.
    pub open spec fn client_at(&self, id: u32) -> ClientView {
        self@[seq_index_of(self@, id)]
    }

    /// The nickname of the client with this id.
    pub open spec fn nickname_of(&self, id: u32) -> Seq<char> {
        self.client_at(id).nickname
    }

    /// Whether the client with this id is muted.
    pub open spec fn muted_of(&self, id: u32) -> bool {
        self.client_at(id).muted
    }

    /// The outbound queue of the client with this id.
    pub open spec fn outbound_of(&self, id: u32) -> Seq<Seq<char>> {
        self.client_at(id).outbound
    }

    /// Some client other than `excluding` carries a nickname equal to `name`
    /// up to ASCII case.
    pub open spec fn nickname_taken(&self, name: Seq<char>, excluding: u32) -> bool {
        exists|i: int|
            0 <= i < self@.len() && self@[i].id != excluding && seq_eq_ci(self@[i].nickname, name)
    }

    /// A registered id is found at its own position.
    pub proof fn lemma_client_at(&self, id: u32)
        requires
            self.wf(),
            self.contains_id(id),
        ensures
            0 <= seq_index_of(self@, id) < self@.len(),
            self.client_at(id).id == id,
            forall|i: int|
                0 <= i < self@.len() && self@[i].id == id ==> i == seq_index_of(self@, id),
    {
        let ix = seq_index_of(self@, id);
        assert(0 <= ix < self@.len() && self@[ix].id == id);
        assert forall|i: int|
            0 <= i < self@.len() && self@[i].id == id implies i == seq_index_of(self@, id) by {
            if i != ix {
                assert(false);
            }
        }
    }

    /// An empty registry.
    pub fn new() -> (r: Self)
        ensures
            r@ == Seq::<ClientView>::empty(),
            r.wf(),
    {
        let r = ClientRegistry { entries: Vec::new() };
        proof {
            assert(r@ =~= Seq::<ClientView>::empty());
        }
        r
    }

    /// How many clients are registered.
    pub fn len(&self) -> (r: usize)
        ensures
            r == self@.len(),
    {
        self.entries.len()
    }

    /// The id of the client at position `i`.
    pub fn id_at(&self, i: usize) -> (r: u32)
        requires
            i < self@.len(),
        ensures
            r == self@[i as int].id,
    {
        self.entries[i].id
    }

    /// The nickname of the client at position `i`.
    pub fn nickname_at(&self, i: usize) -> (r: String)
        requires
            i < self@.len(),
        ensures
            r@ == self@[i as int].nickname,
    {
        String::from_str(self.entries[i].state.nickname())
    }

    fn find_index(&self, id: u32) -> (r: Option<usize>)
        requires
            self.wf(),
        ensures
            (r is Some) == self.contains_id(id),
            r matches Some(k) ==> k < self@.len() && self@[k as int].id == id && k as int
                == seq_index_of(self@, id),
    {
        let n = self.entries.len();
        let mut i: usize = 0;
        while i < n
            invariant
                0 <= i <= n,
                n == self@.len(),
                self.wf(),
                forall|j: int| 0 <= j < i ==> self@[j].id != id,
            decreases n - i,
        {
            if self.entries[i].id == id {
                proof {
                    assert(self@[i as int].id == id);
                    self.lemma_client_at(id);
                }
                return Some(i);
            }
            i = i + 1;
        }
        None
    }

    /// Insert a new client, unmuted and with an empty queue. Fails exactly
    /// when the id is already present; the id generator's monotonicity means
    /// such a failure is a programming error, and the registry is unchanged.
    pub fn register(&mut self, id: u32, nickname: String) -> (r: bool)
        requires
            old(self).wf(),
        ensures
            final(self).wf(),
            r == !old(self).contains_id(id),
            r ==> final(self)@ == old(self)@.push(
                ClientView {
                    id,
                    nickname: nickname@,
                    muted: false,
                    outbound: Seq::<Seq<char>>::empty(),
                },
            ),
            !r ==> final(self)@ == old(self)@,
            final(self).contains_id(id),
    {
        if self.find_index(id).is_some() {
            return false;
        }
        let state = SharedClientState::new(nickname);
        self.entries.push(ClientEntry { id, state });
        proof {
            let v = ClientView {
                id,
                nickname: nickname@,
                muted: false,
                outbound: Seq::<Seq<char>>::empty(),
            };
            assert(self@ =~= old(self)@.push(v));
            assert(seq_contains_id(self@, id)) by {
                assert(self@[self@.len() - 1].id == id);
            }
        }
        true
    }

    /// Remove the client with this id, keeping the order of the rest. Doing
    /// nothing when the id is absent makes removal idempotent.
    pub fn unregister(&mut self, id: u32)
        requires
            old(self).wf(),
        ensures
            final(self).wf(),
            !final(self).contains_id(id),
            old(self).contains_id(id) ==> final(self)@ == old(self)@.remove(
                seq_index_of(old(self)@, id),
            ),
            !old(self).contains_id(id) ==> final(self)@ == old(self)@,
            forall|c: u32| c != id ==> final(self).contains_id(c) == old(self).contains_id(c),
            forall|c: u32|
                c != id && old(self).contains_id(c) ==> final(self).client_at(c) == old(
                    self,
                ).client_at(c),
    {
        let found = self.find_index(id);
        match found {
            None => {
            },
            Some(k) => {
                self.entries.remove(k);
                proof {
                    let pre = old(self)@;
                    let post = self@;
                    assert(post =~= pre.remove(k as int));
                    assert forall|j: int| 0 <= j < post.len() implies post[j].id != id by {
                        if j < k {
                            assert(post[j] == pre[j]);
                        } else {
                            assert(post[j] == pre[j + 1]);
                        }
                    }
                    assert forall|c: u32|
                        c != id && old(self).contains_id(c) implies self.contains_id(c) && #[trigger] self.client_at(c)
                        == old(self).client_at(c) by {
                        let i = seq_index_of(pre, c);
                        assert(0 <= i < pre.len() && pre[i].id == c);
                        let i2: int = if i < k as int {
                            i
                        } else {
                            i - 1
                        };
                        assert(post[i2].id == c && post[i2] == pre[i]);
                        assert(seq_contains_id(post, c));
                        let ip = seq_index_of(post, c);
                        assert(0 <= ip < post.len() && post[ip].id == c);
                        let iorig: int = if ip < k as int {
                            ip
                        } else {
                            ip + 1
                        };
                        assert(pre[iorig].id == c);
                        assert(iorig == i);
                    }
                    assert forall|c: u32| c != id implies self.contains_id(c) == old(
                        self,
                    ).contains_id(c) by {
                        if old(self).contains_id(c) {
                            let i = seq_index_of(pre, c);
                            assert(0 <= i < pre.len() && pre[i].id == c);
                            if i < k as int {
                                assert(post[i].id == c);
                            } else {
                                assert(post[i - 1].id == c);
                            }
                            assert(seq_contains_id(post, c));
                        }
                        if self.contains_id(c) {
                            let ip = seq_index_of(post, c);
                            assert(0 <= ip < post.len() && post[ip].id == c);
                            let iorig: int = if ip < k as int {
                                ip
                            } else {
                                ip + 1
                            };
                            assert(pre[iorig].id == c);
                            assert(seq_contains_id(pre, c));
                        }
                    }
                }
            },
        }
    }

    /// A read-only snapshot of one client: nickname and mute flag.
    pub fn get(&self, id: u32) -> (r: Option<(String, bool)>)
        requires
            self.wf(),
        ensures
            (r is Some) == self.contains_id(id),
            r matches Some(p) ==> p.0@ == self.nickname_of(id) && p.1 == self.muted_of(id),
    {
        match self.find_index(id) {
            None => None,
            Some(k) => {
                let nickname = String::from_str(self.entries[k].state.nickname());
                let muted = self.entries[k].state.is_muted();
                Some((nickname, muted))
            },
        }
    }

    /// Replace the nickname of the client with this id. Returns whether the
    /// client existed; every other client is untouched.
    pub fn set_nickname(&mut self, id: u32, nickname: String) -> (r: bool)
        requires
            old(self).wf(),
        ensures
            final(self).wf(),
            r == old(self).contains_id(id),
            forall|c: u32| final(self).contains_id(c) == old(self).contains_id(c),
            !r ==> final(self)@ == old(self)@,
            r ==> final(self).client_at(id) == (ClientView {
                nickname: nickname@,
                ..old(self).client_at(id)
            }),
            forall|c: u32|
                c != id && old(self).contains_id(c) ==> final(self).client_at(c) == old(
                    self,
                ).client_at(c),
            final(self)@.len() == old(self)@.len(),
    {
        let found = self.find_index(id);
        match found {
            None => false,
            Some(k) => {
                self.entries[k].state.set_nickname(nickname);
                proof {
                    self.update_at_lemma(old(self), k as int, id);
                }
                true
            },
        }
    }

    /// Mute the client with this id. Returns whether the mute flag changed,
    /// or nothing when the id is absent.
    pub fn mute(&mut self, id: u32) -> (r: Option<bool>)
        requires
            old(self).wf(),
        ensures
            final(self).wf(),
            (r is Some) == old(self).contains_id(id),
            forall|c: u32| final(self).contains_id(c) == old(self).contains_id(c),
            r is None ==> final(self)@ == old(self)@,
            r matches Some(changed) ==> changed == !old(self).muted_of(id) && final(self).client_at(id) == (ClientView { muted: true, ..old(self).client_at(id) }),
            forall|c: u32|
                c != id && old(self).contains_id(c) ==> final(self).client_at(c) == old(
                    self,
                ).client_at(c),
            final(self)@.len() == old(self)@.len(),
    {
        let found = self.find_index(id);
        match found {
            None => None,
            Some(k) => {
                let changed = self.entries[k].state.mute();
                proof {
                    self.update_at_lemma(old(self), k as int, id);
                }
                Some(changed)
            },
        }
    }

    /// Unmute the client with this id; the mirror of `mute`.
    pub fn unmute(&mut self, id: u32) -> (r: Option<bool>)
        requires
            old(self).wf(),
        ensures
            final(self).wf(),
            (r is Some) == old(self).contains_id(id),
            forall|c: u32| final(self).contains_id(c) == old(self).contains_id(c),
            r is None ==> final(self)@ == old(self)@,
            r matches Some(changed) ==> changed == old(self).muted_of(id) && final(self).client_at(id) == (ClientView { muted: false, ..old(self).client_at(id) }),
            forall|c: u32|
                c != id && old(self).contains_id(c) ==> final(self).client_at(c) == old(
                    self,
                ).client_at(c),
            final(self)@.len() == old(self)@.len(),
    {
        let found = self.find_index(id);
        match found {
            None => None,
            Some(k) => {
                let changed = self.entries[k].state.unmute();
                proof {
                    self.update_at_lemma(old(self), k as int, id);
                }
                Some(changed)
            },
        }
    }

    /// After an in-place change of the entry at position `k` that kept its
    /// id, containment, positions and all other clients are unchanged.
    proof fn update_at_lemma(&self, pre: &Self, k: int, id: u32)
        requires
            pre.wf(),
            0 <= k < pre@.len(),
            pre@[k].id == id,
            self@.len() == pre@.len(),
            self@[k].id == id,
            self@[k].outbound.len() <= SINK_CAPACITY,
            forall|j: int| 0 <= j < pre@.len() && j != k ==> self@[j] == pre@[j],
        ensures
            self.wf(),
            forall|c: u32| self.contains_id(c) == pre.contains_id(c),
            self.contains_id(id),
            seq_index_of(self@, id) == k,
            self.client_at(id) == self@[k],
            forall|c: u32|
                c != id && pre.contains_id(c) ==> self.contains_id(c) && #[trigger] self.client_at(
                    c,
                ) == pre.client_at(c),
    {
        assert(forall|j: int| 0 <= j < pre@.len() ==> self@[j].id == pre@[j].id);
        lemma_same_ids(pre@, self@);
        assert(seq_contains_id(pre@, id)) by {
            assert(pre@[k].id == id);
        }
        pre.lemma_client_at(id);
        self.lemma_client_at(id);
        assert forall|c: u32|
            c != id && pre.contains_id(c) implies self.contains_id(c) && #[trigger] self.client_at(
            c,
        ) == pre.client_at(c) by {
            let i = seq_index_of(pre@, c);
            assert(0 <= i < pre@.len() && pre@[i].id == c);
            assert(i != k);
            assert(seq_index_of(self@, c) == i);
        }
    }

    /// Enqueue a line for the client with this id, when present. A missing
    /// client is no error for the sender; a full queue reports
    /// `MessageSendFailed` and drops the line.
    pub fn send_to(&mut self, id: u32, message: String) -> (r: Result<(), ChatError>)
        requires
            old(self).wf(),
        ensures
            final(self).wf(),
            forall|c: u32| final(self).contains_id(c) == old(self).contains_id(c),
            !old(self).contains_id(id) ==> final(self)@ == old(self)@ && r is Ok,
            old(self).contains_id(id) ==> final(self).client_at(id) == (ClientView {
                outbound: enqueue_spec(old(self).outbound_of(id), message@),
                ..old(self).client_at(id)
            }),
            old(self).contains_id(id) ==> ((r is Ok) == (old(self).outbound_of(id).len()
                < SINK_CAPACITY)),
            r is Err ==> r->Err_0 is MessageSendFailed,
            forall|c: u32|
                c != id && old(self).contains_id(c) ==> final(self).client_at(c) == old(
                    self,
                ).client_at(c),
            final(self)@.len() == old(self)@.len(),
    {
        let found = self.find_index(id);
        match found {
            None => Ok(()),
            Some(k) => {
                proof {
                    old(self).lemma_client_at(id);
                }
                let r = self.entries[k].state.send(message);
                proof {
                    self.update_at_lemma(old(self), k as int, id);
                }
                r
            },
        }
    }

    /// How many lines are queued for the client with this id.
    pub fn outbound_len(&self, id: u32) -> (r: Option<usize>)
        requires
            self.wf(),
        ensures
            (r is Some) == self.contains_id(id),
            r matches Some(n) ==> n == self.outbound_of(id).len(),
    {
        match self.find_index(id) {
            None => None,
            Some(k) => Some(self.entries[k].state.queued_len()),
        }
    }

    /// Remove and return everything queued for the client with this id.
    pub fn drain_outbound(&mut self, id: u32) -> (r: Option<Vec<String>>)
        requires
            old(self).wf(),
        ensures
            final(self).wf(),
            forall|c: u32| final(self).contains_id(c) == old(self).contains_id(c),
            (r is Some) == old(self).contains_id(id),
            r is None ==> final(self)@ == old(self)@,
            r matches Some(lines) ==> lines.deep_view() == old(self).outbound_of(id) && final(self).client_at(id) == (ClientView {
                outbound: Seq::<Seq<char>>::empty(),
                ..old(self).client_at(id)
            }),
            forall|c: u32|
                c != id && old(self).contains_id(c) ==> final(self).client_at(c) == old(
                    self,
                ).client_at(c),
            final(self)@.len() == old(self)@.len(),
    {
        let found = self.find_index(id);
        match found {
            None => None,
            Some(k) => {
                proof {
                    old(self).lemma_client_at(id);
                }
                let lines = self.entries[k].state.drain();
                proof {
                    self.update_at_lemma(old(self), k as int, id);
                }
                Some(lines)
            },
        }
    }

    /// Enqueue a line for every registered client except `excluding`, each
    /// queue best-effort: a full queue drops the line silently.
    pub fn broadcast(&mut self, excluding: Option<u32>, line: &str)
        requires
            old(self).wf(),
        ensures
            final(self).wf(),
            final(self)@.len() == old(self)@.len(),
            forall|c: u32| final(self).contains_id(c) == old(self).contains_id(c),
            forall|i: int|
                0 <= i < old(self)@.len() ==> final(self)@[i] == after_broadcast(
                    old(self)@[i],
                    excluding,
                    line@,
                ),
            forall|c: u32|
                old(self).contains_id(c) ==> #[trigger] final(self).client_at(c)
                    == after_broadcast(old(self).client_at(c), excluding, line@),
    {
        let n = self.entries.len();
        let mut i: usize = 0;
        while i < n
            invariant
                0 <= i <= n,
                n == old(self)@.len(),
                self@.len() == old(self)@.len(),
                old(self).wf(),
                forall|j: int| i <= j < n ==> self@[j] == old(self)@[j],
                forall|j: int|
                    0 <= j < i ==> self@[j] == #[trigger] after_broadcast(
                        old(self)@[j],
                        excluding,
                        line@,
                    ),
            decreases n - i,
        {
            let skip = match excluding {
                Some(x) => self.entries[i].id == x,
                None => false,
            };
            if !skip {
                proof {
                    assert(self@[i as int] == old(self)@[i as int]);
                    assert(excluding != Some(old(self)@[i as int].id));
                }
                let message = String::from_str(line);
                let ghost mid = self@;
                let _ = self.entries[i].state.send(message);
                proof {
                    assert(forall|j: int|
                        0 <= j < mid.len() && j != i as int ==> self@[j] == mid[j]);
                    assert(self@[i as int] =~= after_broadcast(
                        old(self)@[i as int],
                        excluding,
                        line@,
                    ));
                }
            } else {
                proof {
                    assert(excluding == Some(old(self)@[i as int].id));
                    assert(self@[i as int] =~= after_broadcast(
                        old(self)@[i as int],
                        excluding,
                        line@,
                    ));
                }
            }
            i = i + 1;
        }
        proof {
            assert forall|j: int| 0 <= j < self@.len() implies self@[j].id == old(self)@[j].id
                && self@[j].outbound.len() <= SINK_CAPACITY by {
                assert(self@[j] == after_broadcast(old(self)@[j], excluding, line@));
            }
            lemma_same_ids(old(self)@, self@);
            assert(bounded_queues(self@));
            assert forall|c: u32| old(self).contains_id(c) implies #[trigger] self.client_at(c)
                == after_broadcast(old(self).client_at(c), excluding, line@) by {
                old(self).lemma_client_at(c);
                let ix = seq_index_of(old(self)@, c);
                assert(seq_index_of(self@, c) == ix);
                assert(self@[ix] == after_broadcast(old(self)@[ix], excluding, line@));
            }
        }
    }

    /// Whether some client other than `excluding` already carries `name`, up
    /// to ASCII case.
    pub fn is_nickname_taken(&self, name: &str, excluding: u32) -> (r: bool)
        ensures
            r == self.nickname_taken(name@, excluding),
    {
        let n = self.entries.len();
        let mut i: usize = 0;
        while i < n
            invariant
                0 <= i <= n,
                n == self@.len(),
                forall|j: int|
                    0 <= j < i ==> !(self@[j].id != excluding && seq_eq_ci(
                        self@[j].nickname,
                        name@,
                    )),
            decreases n - i,
        {
            if self.entries[i].id != excluding && eq_ignore_case(
                self.entries[i].state.nickname(),
                name,
            ) {
                proof {
                    assert(self@[i as int].id != excluding && seq_eq_ci(
                        self@[i as int].nickname,
                        name@,
                    ));
                }
                return true;
            }
            i = i + 1;
        }
        false
    }

    /// The first client, in registration order, whose nickname equals `name`
    /// up to ASCII case: its id and a snapshot of its nickname.
    pub fn find_by_nickname(&self, name: &str) -> (r: Option<(u32, String)>)
        ensures
            (r is Some) == (first_ci_match(self@, name@) is Some),
            r matches Some(p) ==> first_ci_match(self@, name@) matches Some(ix) && p.0
                == self@[ix].id && p.1@ == self@[ix].nickname,
    {
        let n = self.entries.len();
        let mut i: usize = 0;
        while i < n
            invariant
                0 <= i <= n,
                n == self@.len(),
                match_from(self@, name@, 0) == match_from(self@, name@, i as int),
            decreases n - i,
        {
            if eq_ignore_case(self.entries[i].state.nickname(), name) {
                proof {
                    assert(seq_eq_ci(self@[i as int].nickname, name@));
                    assert(match_from(self@, name@, i as int) == Some(i as int));
                }
                let id = self.entries[i].id;
                let nickname = String::from_str(self.entries[i].state.nickname());
                return Some((id, nickname));
            }
            proof {
                assert(!seq_eq_ci(self@[i as int].nickname, name@));
                assert(match_from(self@, name@, i as int) == match_from(
                    self@,
                    name@,
                    i as int + 1,
                ));
            }
            i = i + 1;
        }
        None
    }
}


} // verus!
