//! Per-client shared state: the nickname, the mute flag, and the bounded
//! outbound queue that the client's writer drains.

use vstd::prelude::*;

verus! {

/// How many lines a client's outbound queue can hold. A line offered to a
/// full queue is dropped: delivery is best-effort, and a slow consumer never
/// stalls the registry.
pub const SINK_CAPACITY: usize = 10;

/// What enqueueing one line does to a bounded queue: appended when there is
/// room, dropped when the queue is full.
pub open spec fn enqueue_spec(q: Seq<Seq<char>>, m: Seq<char>) -> Seq<Seq<char>> {
    if q.len() < SINK_CAPACITY {
        q.push(m)
    } else {
        q
    }
}

/// Shared state of one connected client.
pub struct SharedClientState {
    nickname: String,
    outbound: Vec<String>,
    is_muted: bool,
}

impl SharedClientState {
    /// The nickname, as a character sequence.
    pub closed spec fn spec_nickname(&self) -> Seq<char> {
        self.nickname@
    }

    /// Whether the client is muted.
    pub closed spec fn spec_muted(&self) -> bool {
        self.is_muted
    }

    /// The queued outbound lines, oldest first.
    pub closed spec fn spec_outbound(&self) -> Seq<Seq<char>> {
        self.outbound.deep_view()
    }

    /// The outbound queue never exceeds its capacity.
    pub open spec fn wf(&self) -> bool {
        self.spec_outbound().len() <= SINK_CAPACITY
    }

    /// A fresh client state: the given nickname, unmuted, nothing queued.
    pub fn new(nickname: String) -> (r: Self)
        ensures
            r.spec_nickname() == nickname@,
            !r.spec_muted(),
            r.spec_outbound() == Seq::<Seq<char>>::empty(),
            r.wf(),
    {
        let r = SharedClientState { nickname, outbound: Vec::new(), is_muted: false };
        proof {
            assert(r.spec_outbound() =~= Seq::<Seq<char>>::empty());
        }
        r
    }

    /// Check if the client is muted.
    pub fn is_muted(&self) -> (r: bool)
        ensures
            r == self.spec_muted(),
    {
        self.is_muted
    }

    /// The current nickname.
    pub fn nickname(&self) -> (r: &str)
        ensures
            r@ == self.spec_nickname(),
    {
        self.nickname.as_str()
    }

    /// Replace the nickname.
    pub fn set_nickname(&mut self, nickname: String)
        ensures
            final(self).spec_nickname() == nickname@,
            final(self).spec_muted() == old(self).spec_muted(),
            final(self).spec_outbound() == old(self).spec_outbound(),
    {
        self.nickname = nickname;
    }

    /// Mute the client. Returns true if the state changed.
    pub fn mute(&mut self) -> (changed: bool)
        ensures
            final(self).spec_muted(),
            changed == !old(self).spec_muted(),
            final(self).spec_nickname() == old(self).spec_nickname(),
            final(self).spec_outbound() == old(self).spec_outbound(),
    {
        if !self.is_muted {
            self.is_muted = true;
            true
        } else {
            false
        }
    }

    /// Unmute the client. Returns true if the state changed.
    pub fn unmute(&mut self) -> (changed: bool)
        ensures
            !final(self).spec_muted(),
            changed == old(self).spec_muted(),
            final(self).spec_nickname() == old(self).spec_nickname(),
            final(self).spec_outbound() == old(self).spec_outbound(),
    {
        if self.is_muted {
            self.is_muted = false;
            true
        } else {
            false
        }
    }

    /// Offer a line to the outbound queue. The line is queued when there is
    /// room; a full queue reports `MessageSendFailed` and drops the line.
    pub fn send(&mut self, message: String) -> (r: Result<(), crate::error::ChatError>)
        ensures
            final(self).spec_outbound() == enqueue_spec(old(self).spec_outbound(), message@),
            final(self).spec_nickname() == old(self).spec_nickname(),
            final(self).spec_muted() == old(self).spec_muted(),
            r is Ok <==> old(self).spec_outbound().len() < SINK_CAPACITY,
            r is Err ==> r->Err_0 is MessageSendFailed,
            old(self).wf() ==> final(self).wf(),
    {
        if self.outbound.len() < SINK_CAPACITY {
            let ghost pre = self.outbound.deep_view();
            self.outbound.push(message);
            proof {
                assert(self.outbound.deep_view() =~= pre.push(message@));
            }
            Ok(())
        } else {
            Err(crate::error::ChatError::MessageSendFailed)
        }
    }

    /// How many lines are queued.
    pub fn queued_len(&self) -> (r: usize)
        ensures
            r == self.spec_outbound().len(),
    {
        self.outbound.len()
    }

    /// Remove and return everything queued, oldest first.
    pub fn drain(&mut self) -> (r: Vec<String>)
        ensures
            r.deep_view() == old(self).spec_outbound(),
            final(self).spec_outbound() == Seq::<Seq<char>>::empty(),
            final(self).spec_nickname() == old(self).spec_nickname(),
            final(self).spec_muted() == old(self).spec_muted(),
            final(self).wf(),
    {
        let mut taken: Vec<String> = Vec::new();
        core::mem::swap(&mut self.outbound, &mut taken);
        proof {
            assert(self.outbound.deep_view() =~= Seq::<Seq<char>>::empty());
        }
        taken
    }
}

} // verus!
