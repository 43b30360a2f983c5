//! The per-line session step: classifying one received line as a command or
//! a chat message, running the middleware chain, and broadcasting. The host
//! owns the two tasks of a connection — the reader that feeds lines to
//! `handle_message` and the writer that drains the client's outbound queue —
//! and calls `register_client` before the first line and `disconnect_client`
//! when the reader ends.

use vstd::prelude::*;
use vstd::string::StringExecFns;
use vstd::string::StrSliceExecFns;

use crate::commands::{
    cmd_arg, cmd_has_arg, cmd_head, help_text, info_message, known_command, list_message,
    moderation_effect, quit_line, unrecognized_line, valid_nickname, Commands,
};
use crate::middleware::{
    block_from, first_block, step_blocks, step_reason, MessageContext, Middleware, MiddlewareChain,
};
use crate::registry::{after_broadcast, only_sender_enqueued, others_unchanged, ClientRegistry, ClientView};
use crate::shared_state::enqueue_spec;
use crate::target::{ambiguous_resolvable, ambiguous_resolved, id_resolvable};
use crate::text::dec_digits;

verus! {

/// A line that the dispatcher should treat as a command.
pub open spec fn is_command_line(s: Seq<char>) -> bool {
    s.len() > 0 && s[0] == '/'
}

/// The line every other client receives for a chat message.
pub open spec fn chat_line(nickname: Seq<char>, message: Seq<char>) -> Seq<char> {
    nickname + ": "@ + message + "\n"@
}

/// The single notice the sender receives for a message the middleware chain
/// rejected.
pub open spec fn blocked_line(reason: Seq<char>) -> Seq<char> {
    "Blocked: "@ + reason + "\n"@
}

/// The nickname a client carries until it picks one.
pub open spec fn spec_default_nickname(id: u32) -> Seq<char> {
    "Client"@ + dec_digits(id as nat)
}

/// The initial nickname of a new connection.
pub fn default_nickname(id: u32) -> (r: String)
    ensures
        r@ == spec_default_nickname(id),
{
    let mut name = String::from_str("Client");
    let digits = crate::text::u32_string(id);
    name.append(digits.as_str());
    name
}

/// Register a new client in the shared registry, unmuted and with an empty
/// queue. Returns false when the id is already present — an invariant
/// violation of the id generator, on which nothing is changed.
pub fn register_client(id: u32, nickname: &str, registry: &mut ClientRegistry) -> (r: bool)
    requires
        old(registry).wf(),
    ensures
        final(registry).wf(),
        r == !old(registry).contains_id(id),
        r ==> final(registry)@ == old(registry)@.push(
            ClientView {
                id,
                nickname: nickname@,
                muted: false,
                outbound: Seq::<Seq<char>>::empty(),
            },
        ),
        !r ==> final(registry)@ == old(registry)@,
        final(registry).contains_id(id),
{
    registry.register(id, String::from_str(nickname))
}

/// Remove the client from the registry when its session ends; removal is
/// idempotent.
pub fn disconnect_client(id: u32, registry: &mut ClientRegistry)
    requires
        old(registry).wf(),
    ensures
        final(registry).wf(),
        !final(registry).contains_id(id),
        forall|c: u32| c != id ==> final(registry).contains_id(c) == old(registry).contains_id(c),
        forall|c: u32|
            c != id && old(registry).contains_id(c) ==> final(registry).client_at(c) == old(
                registry,
            ).client_at(c),
        !old(registry).contains_id(id) ==> final(registry)@ == old(registry)@,
{
    registry.unregister(id);
}

/// Handle one slash line. True keeps the session; false (only `/quit`) ends
/// it. An error while answering (a full queue) never ends the session.
pub fn handle_command(
    id: u32,
    nickname: &mut String,
    registry: &mut ClientRegistry,
    command: &str,
) -> (r: bool)
    requires
        old(registry).wf(),
    ensures
        final(registry).wf(),
        forall|c: u32| final(registry).contains_id(c) == old(registry).contains_id(c),
        final(registry)@.len() == old(registry)@.len(),
        !r ==> cmd_head(command@) == "/quit"@,
        cmd_head(command@) == "/quit"@ ==> final(nickname)@ == Seq::<char>::empty(),
        (cmd_head(command@) == "/nick"@ || cmd_head(command@) == "/nickname"@) && cmd_has_arg(
            command@,
        ) && old(registry).contains_id(id) && valid_nickname(cmd_arg(command@)) && !old(
            registry,
        ).nickname_taken(cmd_arg(command@), id) ==> final(registry).nickname_of(id) == cmd_arg(
            command@,
        ) && final(nickname)@ == cmd_arg(command@),
        cmd_head(command@) == "/mute"@ && cmd_arg(command@).len() != 0 && id_resolvable(
            old(registry)@,
            cmd_arg(command@),
        ) ==> final(registry).muted_of(crate::text::numeral_value(cmd_arg(command@)) as u32),
        cmd_head(command@) == "/unmute"@ && cmd_arg(command@).len() != 0 && id_resolvable(
            old(registry)@,
            cmd_arg(command@),
        ) ==> !final(registry).muted_of(crate::text::numeral_value(cmd_arg(command@)) as u32),
        cmd_head(command@) == "/quit"@ ==> only_sender_enqueued(
            old(registry),
            final(registry),
            id,
            quit_line(old(nickname)@),
        ),
        cmd_head(command@) == "/help"@ ==> only_sender_enqueued(
            old(registry),
            final(registry),
            id,
            help_text(),
        ) && final(nickname)@ == old(nickname)@,
        cmd_head(command@) == "/list"@ ==> only_sender_enqueued(
            old(registry),
            final(registry),
            id,
            list_message(old(registry)@),
        ) && final(nickname)@ == old(nickname)@,
        !known_command(cmd_head(command@)) ==> only_sender_enqueued(
            old(registry),
            final(registry),
            id,
            unrecognized_line(command@),
        ) && final(nickname)@ == old(nickname)@,
        !(cmd_head(command@) == "/mute"@ || cmd_head(command@) == "/unmute"@) ==> others_unchanged(
            old(registry),
            final(registry),
            id,
        ),
        cmd_head(command@) == "/info"@ && cmd_arg(command@).len() != 0 && ambiguous_resolvable(
            old(registry)@,
            cmd_arg(command@),
        ) ==> old(registry).contains_id(ambiguous_resolved(old(registry)@, cmd_arg(command@)))
            && only_sender_enqueued(
            old(registry),
            final(registry),
            id,
            info_message(
                old(registry).nickname_of(ambiguous_resolved(old(registry)@, cmd_arg(command@))),
                ambiguous_resolved(old(registry)@, cmd_arg(command@)),
                old(registry).nickname_of(ambiguous_resolved(old(registry)@, cmd_arg(command@))),
                old(registry).muted_of(ambiguous_resolved(old(registry)@, cmd_arg(command@))),
            ),
        ),
        cmd_head(command@) == "/mute"@ && cmd_arg(command@).len() != 0 && id_resolvable(
            old(registry)@,
            cmd_arg(command@),
        ) ==> (forall|c: u32|
            old(registry).contains_id(c) ==> #[trigger] final(registry).client_at(c)
                == moderation_effect(
                old(registry).client_at(c),
                c,
                crate::text::numeral_value(cmd_arg(command@)) as u32,
                id,
                old(registry).nickname_of(crate::text::numeral_value(cmd_arg(command@)) as u32),
                true,
                old(registry).outbound_of(crate::text::numeral_value(cmd_arg(command@)) as u32).len()
                    < crate::shared_state::SINK_CAPACITY,
            )),
        cmd_head(command@) == "/unmute"@ && cmd_arg(command@).len() != 0 && id_resolvable(
            old(registry)@,
            cmd_arg(command@),
        ) ==> (forall|c: u32|
            old(registry).contains_id(c) ==> #[trigger] final(registry).client_at(c)
                == moderation_effect(
                old(registry).client_at(c),
                c,
                crate::text::numeral_value(cmd_arg(command@)) as u32,
                id,
                old(registry).nickname_of(crate::text::numeral_value(cmd_arg(command@)) as u32),
                false,
                old(registry).outbound_of(crate::text::numeral_value(cmd_arg(command@)) as u32).len()
                    < crate::shared_state::SINK_CAPACITY,
            )),
{
    match Commands::handle_command(nickname, command, registry, id) {
        Ok(should_continue) => should_continue,
        Err(_) => true,
    }
}

/// Handle one received line: a slash line goes to the command dispatcher;
/// anything else runs through the middleware chain and, if no step blocks
/// it, is broadcast as `<nickname>: <message>` to every other client. A
/// blocked message is never broadcast: the sender alone receives one notice.
/// True keeps the session; false (only `/quit`) ends it.
pub fn handle_message(
    id: u32,
    nickname: &mut String,
    registry: &mut ClientRegistry,
    message: &str,
) -> (r: bool)
    requires
        old(registry).wf(),
    ensures
        final(registry).wf(),
        forall|c: u32| final(registry).contains_id(c) == old(registry).contains_id(c),
        final(registry)@.len() == old(registry)@.len(),
        !r ==> is_command_line(message@) && cmd_head(message@) == "/quit"@,
        is_command_line(message@) && cmd_head(message@) == "/quit"@ ==> final(nickname)@
            == Seq::<char>::empty(),
        is_command_line(message@) && cmd_head(message@) == "/mute"@ && cmd_arg(message@).len() != 0
            && id_resolvable(old(registry)@, cmd_arg(message@)) ==> final(registry).muted_of(
            crate::text::numeral_value(cmd_arg(message@)) as u32,
        ),
        is_command_line(message@) && cmd_head(message@) == "/unmute"@ && cmd_arg(message@).len()
            != 0 && id_resolvable(old(registry)@, cmd_arg(message@)) ==> !final(registry).muted_of(
            crate::text::numeral_value(cmd_arg(message@)) as u32,
        ),
        is_command_line(message@) && (cmd_head(message@) == "/nick"@ || cmd_head(message@)
            == "/nickname"@) && cmd_has_arg(message@) && old(registry).contains_id(id)
            && valid_nickname(cmd_arg(message@)) && !old(registry).nickname_taken(
            cmd_arg(message@),
            id,
        ) ==> final(registry).nickname_of(id) == cmd_arg(message@) && final(nickname)@ == cmd_arg(
            message@,
        ),
        is_command_line(message@) && cmd_head(message@) == "/quit"@ ==> only_sender_enqueued(
            old(registry),
            final(registry),
            id,
            quit_line(old(nickname)@),
        ),
        is_command_line(message@) && cmd_head(message@) == "/help"@ ==> only_sender_enqueued(
            old(registry),
            final(registry),
            id,
            help_text(),
        ) && final(nickname)@ == old(nickname)@,
        is_command_line(message@) && cmd_head(message@) == "/list"@ ==> only_sender_enqueued(
            old(registry),
            final(registry),
            id,
            list_message(old(registry)@),
        ) && final(nickname)@ == old(nickname)@,
        is_command_line(message@) && !known_command(cmd_head(message@)) ==> only_sender_enqueued(
            old(registry),
            final(registry),
            id,
            unrecognized_line(message@),
        ) && final(nickname)@ == old(nickname)@,
        is_command_line(message@) && !(cmd_head(message@) == "/mute"@ || cmd_head(message@) == "/unmute"@) ==> others_unchanged(
            old(registry),
            final(registry),
            id,
        ),
        is_command_line(message@) && cmd_head(message@) == "/info"@ && cmd_arg(message@).len() != 0 && ambiguous_resolvable(
            old(registry)@,
            cmd_arg(message@),
        ) ==> old(registry).contains_id(ambiguous_resolved(old(registry)@, cmd_arg(message@)))
            && only_sender_enqueued(
            old(registry),
            final(registry),
            id,
            info_message(
                old(registry).nickname_of(ambiguous_resolved(old(registry)@, cmd_arg(message@))),
                ambiguous_resolved(old(registry)@, cmd_arg(message@)),
                old(registry).nickname_of(ambiguous_resolved(old(registry)@, cmd_arg(message@))),
                old(registry).muted_of(ambiguous_resolved(old(registry)@, cmd_arg(message@))),
            ),
        ),
        is_command_line(message@) && cmd_head(message@) == "/mute"@ && cmd_arg(message@).len() != 0 && id_resolvable(
            old(registry)@,
            cmd_arg(message@),
        ) ==> (forall|c: u32|
            old(registry).contains_id(c) ==> #[trigger] final(registry).client_at(c)
                == moderation_effect(
                old(registry).client_at(c),
                c,
                crate::text::numeral_value(cmd_arg(message@)) as u32,
                id,
                old(registry).nickname_of(crate::text::numeral_value(cmd_arg(message@)) as u32),
                true,
                old(registry).outbound_of(crate::text::numeral_value(cmd_arg(message@)) as u32).len()
                    < crate::shared_state::SINK_CAPACITY,
            )),
        is_command_line(message@) && cmd_head(message@) == "/unmute"@ && cmd_arg(message@).len() != 0 && id_resolvable(
            old(registry)@,
            cmd_arg(message@),
        ) ==> (forall|c: u32|
            old(registry).contains_id(c) ==> #[trigger] final(registry).client_at(c)
                == moderation_effect(
                old(registry).client_at(c),
                c,
                crate::text::numeral_value(cmd_arg(message@)) as u32,
                id,
                old(registry).nickname_of(crate::text::numeral_value(cmd_arg(message@)) as u32),
                false,
                old(registry).outbound_of(crate::text::numeral_value(cmd_arg(message@)) as u32).len()
                    < crate::shared_state::SINK_CAPACITY,
            )),
        !is_command_line(message@) ==> r && final(nickname)@ == old(nickname)@,
        !is_command_line(message@) && !(old(registry).contains_id(id) && old(registry).muted_of(
            id,
        )) ==> (forall|c: u32|
            old(registry).contains_id(c) ==> #[trigger] final(registry).client_at(c)
                == after_broadcast(
                old(registry).client_at(c),
                Some(id),
                chat_line(old(nickname)@, message@),
            )),
        !is_command_line(message@) && !(old(registry).contains_id(id) && old(registry).muted_of(
            id,
        )) ==> (forall|c: u32|
            c != id && old(registry).contains_id(c) ==> final(registry).outbound_of(c)
                == enqueue_spec(
                old(registry).outbound_of(c),
                chat_line(old(nickname)@, message@),
            )) && (old(registry).contains_id(id) ==> final(registry).client_at(id) == old(
            registry,
        ).client_at(id)),
        !is_command_line(message@) && old(registry).contains_id(id) && old(registry).muted_of(id)
            ==> only_sender_enqueued(
            old(registry),
            final(registry),
            id,
            blocked_line(step_reason(Middleware::IsMuted)),
        ),
{
    if starts_with_slash(message) {
        handle_command(id, nickname, registry, message)
    } else {
        let mut ctx = MessageContext {
            message: String::from_str(message),
            sender_id: id,
            nickname: nickname.clone(),
        };
        let chain = MiddlewareChain::default();
        let ghost steps = chain.spec_steps();
        proof {
            assert(steps =~= seq![Middleware::IsMuted]);
            assert(block_from(steps, registry@, id, 1) is None);
            assert(first_block(steps, registry@, id) == (if step_blocks(
                Middleware::IsMuted,
                registry@,
                id,
            ) {
                Some(0int)
            } else {
                Option::<int>::None
            }));
            if old(registry).contains_id(id) {
                old(registry).lemma_client_at(id);
            }
        }
        let outcome = chain.process(&mut ctx, registry);
        match outcome {
            Err(e) => {
                let mut line = String::from_str("Blocked: ");
                let reason = e.message();
                line.append(reason.as_str());
                line.append("\n");
                let _ = registry.send_to(id, line);
                true
            },
            Ok(()) => {
                broadcast_message(id, nickname.as_str(), registry, ctx.message.as_str());
                proof {
                    assert forall|c: u32|
                        c != id && old(registry).contains_id(c) implies registry.outbound_of(c)
                        == enqueue_spec(
                        old(registry).outbound_of(c),
                        chat_line(old(nickname)@, message@),
                    ) by {
                        old(registry).lemma_client_at(c);
                        assert(registry.client_at(c) == after_broadcast(
                            old(registry).client_at(c),
                            Some(id),
                            chat_line(old(nickname)@, message@),
                        ));
                    }
                    if old(registry).contains_id(id) {
                        old(registry).lemma_client_at(id);
                        assert(registry.client_at(id) =~= old(registry).client_at(id));
                    }
                }
                true
            },
        }
    }
}

/// Whether the line selects the command dispatcher.
pub fn starts_with_slash(s: &str) -> (r: bool)
    ensures
        r == is_command_line(s@),
{
    s.unicode_len() > 0 && s.get_char(0) == '/'
}

/// Queue `<nickname>: <message>` for every registered client except the
/// sender, each queue best-effort.
pub fn broadcast_message(id: u32, nickname: &str, registry: &mut ClientRegistry, message: &str)
    requires
        old(registry).wf(),
    ensures
        final(registry).wf(),
        final(registry)@.len() == old(registry)@.len(),
        forall|c: u32| final(registry).contains_id(c) == old(registry).contains_id(c),
        forall|i: int|
            0 <= i < old(registry)@.len() ==> final(registry)@[i] == after_broadcast(
                old(registry)@[i],
                Some(id),
                chat_line(nickname@, message@),
            ),
        forall|c: u32|
            old(registry).contains_id(c) ==> #[trigger] final(registry).client_at(c)
                == after_broadcast(
                old(registry).client_at(c),
                Some(id),
                chat_line(nickname@, message@),
            ),
{
    let mut line = String::from_str(nickname);
    line.append(": ");
    line.append(message);
    line.append("\n");
    proof {
        assert(line@ =~= chat_line(nickname@, message@));
    }
    registry.broadcast(Some(id), line.as_str());
}

} // verus!
