//! The message middleware chain: an ordered sequence of gate/transform steps
//! a chat line passes through before broadcast. Steps run strictly in order
//! and the first failure short-circuits the rest; a failure is reported to
//! the sender only and never ends the session.

use vstd::prelude::*;
use vstd::string::StringExecFns;

use crate::registry::{seq_contains_id, seq_index_of, ClientRegistry, ClientView};

verus! {

/// The middleware steps the chain can hold, one variant per step. The
/// default configuration holds only the mute check; further gates (rate
/// limits, length caps) attach as new variants without changing the chain's
/// execution contract.
#[derive(Clone, Copy, PartialEq, Eq, Structural)]
pub enum Middleware {
    /// Blocks every chat line of a muted sender.
    IsMuted,
}

/// What a middleware step reports when it rejects a message.
pub enum MiddlewareError {
    /// The message is blocked, with a reason.
    Blocked(String),
    /// The message failed validation, with a reason.
    ValidationFailed(String),
}

impl MiddlewareError {
    /// The wording `message` returns for each error.
    pub open spec fn spec_message(&self) -> Seq<char> {
        match self {
            MiddlewareError::Blocked(reason) => reason@,
            MiddlewareError::ValidationFailed(reason) => reason@,
        }
    }

    /// The reason carried by the error.
    pub fn message(&self) -> (r: String)
        ensures
            r@ == self.spec_message(),
    {
        match self {
            MiddlewareError::Blocked(reason) => reason.clone(),
            MiddlewareError::ValidationFailed(reason) => reason.clone(),
        }
    }
}

/// The per-message record threaded through the chain. It is mutable so a
/// step could rewrite the text before broadcast; the steps currently
/// configured only gate and never rewrite.
pub struct MessageContext {
    pub message: String,
    pub sender_id: u32,
    pub nickname: String,
}

/// Whether one step rejects the message in the given registry state.
pub open spec fn step_blocks(m: Middleware, v: Seq<ClientView>, sender: u32) -> bool {
    match m {
        Middleware::IsMuted => seq_contains_id(v, sender) && v[seq_index_of(v, sender)].muted,
    }
}

/// The reason a step gives when it blocks.
pub open spec fn step_reason(m: Middleware) -> Seq<char> {
    match m {
        Middleware::IsMuted => "You are muted and cannot send messages"@,
    }
}

/// The position of the first step, from `i` on, that blocks the message.
pub open spec fn block_from(ms: Seq<Middleware>, v: Seq<ClientView>, sender: u32, i: int) -> Option<
    int,
>
    decreases ms.len() - i,
{
    if i < 0 || i >= ms.len() {
        None
    } else if step_blocks(ms[i], v, sender) {
        Some(i)
    } else {
        block_from(ms, v, sender, i + 1)
    }
}

/// The position of the first step of the chain that blocks the message.
pub open spec fn first_block(ms: Seq<Middleware>, v: Seq<ClientView>, sender: u32) -> Option<int> {
    block_from(ms, v, sender, 0)
}

impl Middleware {
    /// Run one step against the registry: success, or the step's reason.
    pub fn process(&self, ctx: &mut MessageContext, registry: &ClientRegistry) -> (r: Result<
        (),
        MiddlewareError,
    >)
        requires
            registry.wf(),
        ensures
            final(ctx).message@ == old(ctx).message@,
            final(ctx).sender_id == old(ctx).sender_id,
            final(ctx).nickname@ == old(ctx).nickname@,
            (r is Ok) == !step_blocks(*self, registry@, old(ctx).sender_id),
            r matches Err(e) ==> (e matches MiddlewareError::Blocked(reason) && reason@
                == step_reason(*self)),
    {
        match self {
            Middleware::IsMuted => {
                let muted = match registry.get(ctx.sender_id) {
                    Some(snapshot) => snapshot.1,
                    None => false,
                };
                if muted {
                    Err(MiddlewareError::Blocked(
                        String::from_str("You are muted and cannot send messages"),
                    ))
                } else {
                    Ok(())
                }
            },
        }
    }
}

/// The ordered chain of middleware steps.
pub struct MiddlewareChain {
    middlewares: Vec<Middleware>,
}

impl MiddlewareChain {
    /// The steps, in execution order.
    pub closed spec fn spec_steps(&self) -> Seq<Middleware> {
        self.middlewares@
    }

    /// An empty chain, which accepts every message.
    pub fn new() -> (r: Self)
        ensures
            r.spec_steps() == Seq::<Middleware>::empty(),
    {
        let r = MiddlewareChain { middlewares: Vec::new() };
        proof {
            assert(r.spec_steps() =~= Seq::<Middleware>::empty());
        }
        r
    }

    /// The chain extended with one more step at the end.
    pub fn add(self, middleware: Middleware) -> (r: Self)
        ensures
            r.spec_steps() == self.spec_steps().push(middleware),
    {
        let mut chain = self;
        chain.middlewares.push(middleware);
        chain
    }

    /// Run the message through all steps in order; the first failure
    /// short-circuits the remaining steps and is returned.
    pub fn process(&self, ctx: &mut MessageContext, registry: &ClientRegistry) -> (r: Result<
        (),
        MiddlewareError,
    >)
        requires
            registry.wf(),
        ensures
            final(ctx).message@ == old(ctx).message@,
            final(ctx).sender_id == old(ctx).sender_id,
            final(ctx).nickname@ == old(ctx).nickname@,
            (r is Ok) == (first_block(self.spec_steps(), registry@, old(ctx).sender_id) is None),
            r matches Err(e) ==> (e matches MiddlewareError::Blocked(reason) && first_block(
                self.spec_steps(),
                registry@,
                old(ctx).sender_id,
            ) matches Some(ix) && reason@ == step_reason(self.spec_steps()[ix])),
    {
        let ghost steps = self.spec_steps();
        let ghost sender = ctx.sender_id;
        let n = self.middlewares.len();
        let mut i: usize = 0;
        while i < n
            invariant
                0 <= i <= n,
                n == steps.len(),
                steps == self.spec_steps(),
                registry.wf(),
                sender == ctx.sender_id,
                ctx.message@ == old(ctx).message@,
                ctx.sender_id == old(ctx).sender_id,
                ctx.nickname@ == old(ctx).nickname@,
                block_from(steps, registry@, sender, 0) == block_from(
                    steps,
                    registry@,
                    sender,
                    i as int,
                ),
            decreases n - i,
        {
            let step = self.middlewares[i];
            let outcome = step.process(ctx, registry);
            match outcome {
                Ok(()) => {
                    proof {
                        assert(!step_blocks(steps[i as int], registry@, sender));
                        assert(block_from(steps, registry@, sender, i as int) == block_from(
                            steps,
                            registry@,
                            sender,
                            i as int + 1,
                        ));
                    }
                },
                Err(e) => {
                    proof {
                        assert(step_blocks(steps[i as int], registry@, sender));
                        assert(block_from(steps, registry@, sender, i as int) == Some(i as int));
                    }
                    return Err(e);
                },
            }
            i = i + 1;
        }
        Ok(())
    }
}

impl Default for MiddlewareChain {
    /// The default chain: the mute check alone.
    fn default() -> (r: Self)
        ensures
            r.spec_steps() == seq![Middleware::IsMuted],
    {
        let r = MiddlewareChain::new().add(Middleware::IsMuted);
        proof {
            assert(r.spec_steps() =~= seq![Middleware::IsMuted]);
        }
        r
    }
}

} // verus!
