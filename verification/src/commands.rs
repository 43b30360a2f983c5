//! The command dispatcher: parsing a leading-slash line into a typed command
//! and executing it against the registry. Unknown commands and malformed
//! arguments never end the session; only `/quit` does.

use vstd::prelude::*;
use vstd::string::StringExecFns;
use vstd::string::StrSliceExecFns;

use crate::error::ChatError;
use crate::registry::{only_sender_enqueued, others_unchanged, ClientRegistry, ClientView};
use crate::shared_state::{enqueue_spec, SINK_CAPACITY};
use crate::target::{
    id_resolvable, resolved_id, spec_target_str, target_resolvable, Target, TargetId,
    ValidatedTarget,
};
use crate::text::{
    dec_digits, is_name_char, is_u32_numeral, name_char, numeral_value, spec_trim, str_eq, trim,
    u32_string,
};

verus! {

/// The position of the first space in `s`, scanning from `i`.
pub open spec fn space_from(s: Seq<char>, i: int) -> Option<int>
    decreases s.len() - i,
{
    if i < 0 || i >= s.len() {
        None
    } else if s[i] == ' ' {
        Some(i)
    } else {
        space_from(s, i + 1)
    }
}

/// The command word of a trimmed line: everything before the first space, or
/// the whole line when it has none.
pub open spec fn spec_head(s: Seq<char>) -> Seq<char> {
    match space_from(s, 0) {
        Some(i) => s.take(i),
        None => s,
    }
}

/// The argument text of a trimmed line: everything after the first space, or
/// empty when it has none.
pub open spec fn spec_rest(s: Seq<char>) -> Seq<char> {
    match space_from(s, 0) {
        Some(i) => s.subrange(i + 1, s.len() as int),
        None => Seq::empty(),
    }
}

/// The command word of a raw input line.
pub open spec fn cmd_head(input: Seq<char>) -> Seq<char> {
    spec_head(spec_trim(input))
}

/// The raw input line has an argument part.
pub open spec fn cmd_has_arg(input: Seq<char>) -> bool {
    space_from(spec_trim(input), 0) is Some
}

/// The trimmed argument of a raw input line.
pub open spec fn cmd_arg(input: Seq<char>) -> Seq<char> {
    spec_trim(spec_rest(spec_trim(input)))
}

/// The command word is one the dispatcher knows.
pub open spec fn known_command(h: Seq<char>) -> bool {
    h == "/help"@ || h == "/quit"@ || h == "/nick"@ || h == "/nickname"@ || h == "/list"@ || h
        == "/info"@ || h == "/mute"@ || h == "/unmute"@
}

proof fn lemma_space_from(s: Seq<char>, i: int)
    requires
        0 <= i <= s.len(),
    ensures
        space_from(s, i) matches Some(ix) ==> i <= ix < s.len() && s[ix] == ' ' && (forall|j: int|
            i <= j < ix ==> s[j] != ' '),
        space_from(s, i) is None ==> forall|j: int| i <= j < s.len() ==> s[j] != ' ',
    decreases s.len() - i,
{
    if i < s.len() && s[i] != ' ' {
        lemma_space_from(s, i + 1);
    }
}

/// A nickname the validator accepts: one to twenty characters, each a
/// letter, a digit or an underscore.
pub open spec fn valid_nickname(s: Seq<char>) -> bool {
    1 <= s.len() <= 20 && (forall|i: int| 0 <= i < s.len() ==> is_name_char(s[i]))
}

/// The commands available in the chat system.
pub enum Commands {
    Help,
    Quit,
    Nickname(String),
    List,
    Mute(TargetId),
    Unmute(TargetId),
    Info(Target),
}

/// The candidate nickname a `Nickname` command carries.
pub open spec fn nickname_arg(c: &Commands) -> Seq<char> {
    match c {
        Commands::Nickname(n) => n@,
        _ => Seq::empty(),
    }
}

/// The raw id string a `Mute` or `Unmute` command carries.
pub open spec fn moderation_arg(c: &Commands) -> Seq<char> {
    match c {
        Commands::Mute(t) => t.0@,
        Commands::Unmute(t) => t.0@,
        _ => Seq::empty(),
    }
}

/// Whether an `Info` command's target resolves against the given contents.
pub open spec fn info_resolvable(c: &Commands, v: Seq<ClientView>) -> bool {
    match c {
        Commands::Info(t) => target_resolvable(v, t),
        _ => false,
    }
}

/// The client an `Info` command's target names, when it resolves.
pub open spec fn info_resolved(c: &Commands, v: Seq<ClientView>) -> u32 {
    match c {
        Commands::Info(t) => resolved_id(v, t),
        _ => 0,
    }
}

impl Commands {
    /// Parse one input line into a command: the line is trimmed, split on
    /// the first space into a case-sensitive command word and an argument,
    /// and matched against the command table. `None` means the line is not a
    /// recognized, well-formed command.
    pub fn parse(input: &str) -> (r: Option<Self>)
        ensures
            cmd_head(input@) == "/help"@ ==> r == Some(Commands::Help),
            cmd_head(input@) == "/quit"@ ==> r == Some(Commands::Quit),
            cmd_head(input@) == "/list"@ ==> r == Some(Commands::List),
            (cmd_head(input@) == "/nick"@ || cmd_head(input@) == "/nickname"@) && cmd_has_arg(
                input@,
            ) ==> (r matches Some(c) && c matches Commands::Nickname(n) && n@ == cmd_arg(input@)),
            (cmd_head(input@) == "/nick"@ || cmd_head(input@) == "/nickname"@) && !cmd_has_arg(
                input@,
            ) ==> r is None,
            cmd_head(input@) == "/info"@ && cmd_arg(input@).len() != 0 ==> (r matches Some(c)
                && c matches Commands::Info(t) && t matches Target::Both(s) && s@ == cmd_arg(
                input@,
            )),
            cmd_head(input@) == "/info"@ && cmd_arg(input@).len() == 0 ==> r is None,
            cmd_head(input@) == "/mute"@ && cmd_arg(input@).len() != 0 ==> (r matches Some(c)
                && c matches Commands::Mute(t) && t.0@ == cmd_arg(input@)),
            cmd_head(input@) == "/mute"@ && cmd_arg(input@).len() == 0 ==> r is None,
            cmd_head(input@) == "/unmute"@ && cmd_arg(input@).len() != 0 ==> (r matches Some(c)
                && c matches Commands::Unmute(t) && t.0@ == cmd_arg(input@)),
            cmd_head(input@) == "/unmute"@ && cmd_arg(input@).len() == 0 ==> r is None,
            !known_command(cmd_head(input@)) ==> r is None,
    {
        proof {
            reveal_strlit("/help");
            reveal_strlit("/quit");
            reveal_strlit("/nick");
            reveal_strlit("/nickname");
            reveal_strlit("/list");
            reveal_strlit("/info");
            reveal_strlit("/mute");
            reveal_strlit("/unmute");
            assert("/help"@.len() == 5 && "/help"@[1] == 'h');
            assert("/quit"@.len() == 5 && "/quit"@[1] == 'q');
            assert("/nick"@.len() == 5 && "/nick"@[1] == 'n');
            assert("/nickname"@.len() == 9 && "/nickname"@[1] == 'n');
            assert("/list"@.len() == 5 && "/list"@[1] == 'l');
            assert("/info"@.len() == 5 && "/info"@[1] == 'i');
            assert("/mute"@.len() == 5 && "/mute"@[1] == 'm');
            assert("/unmute"@.len() == 7 && "/unmute"@[1] == 'u');
        }
        let trimmed = trim(input);
        let len = trimmed.unicode_len();
        let mut sp: usize = 0;
        let mut found = false;
        while sp < len
            invariant_except_break
                0 <= sp <= len,
                len == trimmed@.len(),
                !found,
                forall|j: int| 0 <= j < sp ==> trimmed@[j] != ' ',
            ensures
                found ==> sp < len && trimmed@[sp as int] == ' ' && (forall|j: int|
                    0 <= j < sp ==> trimmed@[j] != ' '),
                !found ==> sp == len && (forall|j: int| 0 <= j < len ==> trimmed@[j] != ' '),
            decreases len - sp,
        {
            if trimmed.get_char(sp) == ' ' {
                found = true;
                break;
            }
            sp = sp + 1;
        }
        proof {
            lemma_space_from(trimmed@, 0);
            if found {
                if space_from(trimmed@, 0) is None {
                    assert(false);
                }
                let ix = space_from(trimmed@, 0)->0;
                if ix < sp as int {
                    assert(trimmed@[ix] != ' ');
                }
                if ix > sp as int {
                    assert(trimmed@[sp as int] != ' ');
                }
                assert(ix == sp as int);
            } else {
                let m = space_from(trimmed@, 0);
                if m is Some {
                    assert(trimmed@[m->0] != ' ');
                }
            }
        }
        let head = if found {
            trimmed.substring_char(0, sp)
        } else {
            trimmed
        };
        let rest = if found {
            trimmed.substring_char(sp + 1, len)
        } else {
            ""
        };
        proof {
            assert(head@ == spec_head(trimmed@));
            if found {
                assert(rest@ == spec_rest(trimmed@));
            } else {
                reveal_strlit("");
                assert(rest@ =~= spec_rest(trimmed@));
            }
        }
        if str_eq(head, "/help") {
            Some(Commands::Help)
        } else if str_eq(head, "/quit") {
            Some(Commands::Quit)
        } else if str_eq(head, "/nick") || str_eq(head, "/nickname") {
            if found {
                Some(Commands::Nickname(String::from_str(trim(rest))))
            } else {
                None
            }
        } else if str_eq(head, "/list") {
            Some(Commands::List)
        } else if str_eq(head, "/info") {
            match Target::from_args(rest) {
                Some(target) => Some(Commands::Info(target)),
                None => None,
            }
        } else if str_eq(head, "/mute") {
            match TargetId::from_args(rest) {
                Some(target_id) => Some(Commands::Mute(target_id)),
                None => None,
            }
        } else if str_eq(head, "/unmute") {
            match TargetId::from_args(rest) {
                Some(target_id) => Some(Commands::Unmute(target_id)),
                None => None,
            }
        } else {
            None
        }
    }

    /// Handle one slash line: parse it and execute the command, or tell the
    /// sender the command was not recognized. `Ok(true)` keeps the session
    /// running; `Ok(false)` asks for disconnection (only `/quit` does).
    pub fn handle_command(
        nickname: &mut String,
        input: &str,
        registry: &mut ClientRegistry,
        client_id: u32,
    ) -> (r: Result<bool, ChatError>)
        requires
            old(registry).wf(),
        ensures
            final(registry).wf(),
            forall|c: u32| final(registry).contains_id(c) == old(registry).contains_id(c),
            final(registry)@.len() == old(registry)@.len(),
            r matches Ok(keep_running) ==> keep_running == (cmd_head(input@) != "/quit"@),
            cmd_head(input@) == "/quit"@ ==> final(nickname)@ == Seq::<char>::empty(),
            !known_command(cmd_head(input@)) ==> only_sender_enqueued(
                old(registry),
                final(registry),
                client_id,
                unrecognized_line(input@),
            ) && final(nickname)@ == old(nickname)@,
            (cmd_head(input@) == "/nick"@ || cmd_head(input@) == "/nickname"@) && cmd_has_arg(
                input@,
            ) && old(registry).contains_id(client_id) && valid_nickname(cmd_arg(input@)) && !old(
                registry,
            ).nickname_taken(cmd_arg(input@), client_id) ==> final(registry).nickname_of(client_id)
                == cmd_arg(input@) && final(nickname)@ == cmd_arg(input@),
            cmd_head(input@) == "/mute"@ && cmd_arg(input@).len() != 0 && id_resolvable(
                old(registry)@,
                cmd_arg(input@),
            ) ==> final(registry).muted_of(numeral_value(cmd_arg(input@)) as u32),
            cmd_head(input@) == "/unmute"@ && cmd_arg(input@).len() != 0 && id_resolvable(
                old(registry)@,
                cmd_arg(input@),
            ) ==> !final(registry).muted_of(numeral_value(cmd_arg(input@)) as u32),
            cmd_head(input@) == "/quit"@ ==> only_sender_enqueued(
                old(registry),
                final(registry),
                client_id,
                quit_line(old(nickname)@),
            ),
            cmd_head(input@) == "/help"@ ==> only_sender_enqueued(
                old(registry),
                final(registry),
                client_id,
                help_text(),
            ) && final(nickname)@ == old(nickname)@,
            cmd_head(input@) == "/list"@ ==> only_sender_enqueued(
                old(registry),
                final(registry),
                client_id,
                list_message(old(registry)@),
            ) && final(nickname)@ == old(nickname)@,
            !(cmd_head(input@) == "/mute"@ || cmd_head(input@) == "/unmute"@) ==> others_unchanged(
                old(registry),
                final(registry),
                client_id,
            ),
            !((cmd_head(input@) == "/info"@ || cmd_head(input@) == "/mute"@ || cmd_head(input@)
                == "/unmute"@) && cmd_arg(input@).len() != 0) ==> ((r is Ok) == (!old(
                registry,
            ).contains_id(client_id) || old(registry).outbound_of(client_id).len()
                < SINK_CAPACITY)),
            cmd_head(input@) == "/mute"@ && cmd_arg(input@).len() != 0 ==> ((r is Ok)
                == moderation_ok(old(registry), client_id, cmd_arg(input@), true)),
            cmd_head(input@) == "/unmute"@ && cmd_arg(input@).len() != 0 ==> ((r is Ok)
                == moderation_ok(old(registry), client_id, cmd_arg(input@), false)),
            cmd_head(input@) == "/info"@ && cmd_arg(input@).len() != 0 ==> ((r is Ok) == (
            crate::target::ambiguous_resolvable(old(registry)@, cmd_arg(input@)) && (!old(
                registry,
            ).contains_id(client_id) || old(registry).outbound_of(client_id).len()
                < SINK_CAPACITY))),
            cmd_head(input@) == "/info"@ && cmd_arg(input@).len() != 0
                && crate::target::ambiguous_resolvable(old(registry)@, cmd_arg(input@)) ==> old(
                registry,
            ).contains_id(crate::target::ambiguous_resolved(old(registry)@, cmd_arg(input@)))
                && only_sender_enqueued(
                old(registry),
                final(registry),
                client_id,
                info_message(
                    old(registry).nickname_of(
                        crate::target::ambiguous_resolved(old(registry)@, cmd_arg(input@)),
                    ),
                    crate::target::ambiguous_resolved(old(registry)@, cmd_arg(input@)),
                    old(registry).nickname_of(
                        crate::target::ambiguous_resolved(old(registry)@, cmd_arg(input@)),
                    ),
                    old(registry).muted_of(
                        crate::target::ambiguous_resolved(old(registry)@, cmd_arg(input@)),
                    ),
                ),
            ),
            cmd_head(input@) == "/mute"@ && cmd_arg(input@).len() != 0 && id_resolvable(
                old(registry)@,
                cmd_arg(input@),
            ) ==> (forall|c: u32|
                old(registry).contains_id(c) ==> #[trigger] final(registry).client_at(c)
                    == moderation_effect(
                    old(registry).client_at(c),
                    c,
                    numeral_value(cmd_arg(input@)) as u32,
                    client_id,
                    old(registry).nickname_of(numeral_value(cmd_arg(input@)) as u32),
                    true,
                    old(registry).outbound_of(numeral_value(cmd_arg(input@)) as u32).len()
                        < SINK_CAPACITY,
                )),
            cmd_head(input@) == "/unmute"@ && cmd_arg(input@).len() != 0 && id_resolvable(
                old(registry)@,
                cmd_arg(input@),
            ) ==> (forall|c: u32|
                old(registry).contains_id(c) ==> #[trigger] final(registry).client_at(c)
                    == moderation_effect(
                    old(registry).client_at(c),
                    c,
                    numeral_value(cmd_arg(input@)) as u32,
                    client_id,
                    old(registry).nickname_of(numeral_value(cmd_arg(input@)) as u32),
                    false,
                    old(registry).outbound_of(numeral_value(cmd_arg(input@)) as u32).len()
                        < SINK_CAPACITY,
                )),
    {
        proof {
            crate::text::lemma_trim_idempotent(spec_rest(spec_trim(input@)));
        }
        match Self::parse(input) {
            Some(command) => command.execute(nickname, registry, client_id),
            None => {
                let mut line = String::from_str("Unrecognized command: ");
                line.append(input);
                line.append(". Use /help to see available commands.\n");
                let r = registry.send_to(client_id, line);
                match r {
                    Ok(()) => Ok(true),
                    Err(e) => Err(e),
                }
            },
        }
    }

    /// Execute the command. `Ok(true)` keeps the session running;
    /// `Ok(false)` asks for disconnection.
    pub fn execute(
        &self,
        nickname: &mut String,
        registry: &mut ClientRegistry,
        client_id: u32,
    ) -> (r: Result<bool, ChatError>)
        requires
            old(registry).wf(),
        ensures
            final(registry).wf(),
            forall|c: u32| final(registry).contains_id(c) == old(registry).contains_id(c),
            final(registry)@.len() == old(registry)@.len(),
            r matches Ok(keep_running) ==> keep_running == !(self is Quit),
            self is Quit ==> final(nickname)@ == Seq::<char>::empty(),
            self is Help ==> only_sender_enqueued(
                old(registry),
                final(registry),
                client_id,
                help_text(),
            ) && final(nickname)@ == old(nickname)@,
            self is List ==> only_sender_enqueued(
                old(registry),
                final(registry),
                client_id,
                list_message(old(registry)@),
            ) && final(nickname)@ == old(nickname)@,
            self is Nickname && old(registry).contains_id(client_id) && valid_nickname(
                spec_trim(nickname_arg(self)),
            ) && !old(registry).nickname_taken(spec_trim(nickname_arg(self)), client_id) ==> final(registry).nickname_of(client_id) == spec_trim(nickname_arg(self)) && final(nickname)@
                == spec_trim(nickname_arg(self)),
            self is Mute && id_resolvable(old(registry)@, moderation_arg(self)) ==> final(registry).muted_of(numeral_value(moderation_arg(self)) as u32),
            self is Unmute && id_resolvable(old(registry)@, moderation_arg(self)) ==> !final(registry).muted_of(numeral_value(moderation_arg(self)) as u32),
            self is Quit ==> only_sender_enqueued(
                old(registry),
                final(registry),
                client_id,
                quit_line(old(nickname)@),
            ),
            (self is Help || self is List || self is Quit || self is Nickname) ==> ((r is Ok) == (
            !old(registry).contains_id(client_id) || old(registry).outbound_of(client_id).len()
                < SINK_CAPACITY)),
            self is Mute ==> ((r is Ok) == moderation_ok(
                old(registry),
                client_id,
                moderation_arg(self),
                true,
            )),
            self is Unmute ==> ((r is Ok) == moderation_ok(
                old(registry),
                client_id,
                moderation_arg(self),
                false,
            )),
            (self is Mute || self is Unmute) && !id_resolvable(
                old(registry)@,
                moderation_arg(self),
            ) ==> (r matches Err(e) && crate::target::reported_to_sender(
                old(registry),
                final(registry),
                client_id,
                &e,
            )),
            (self is Mute || self is Unmute) && !is_u32_numeral(moderation_arg(self)) ==> (
            r matches Err(e) && e matches ChatError::InvalidUserId(es) && es@ == moderation_arg(
                self,
            )),
            (self is Mute || self is Unmute) && is_u32_numeral(moderation_arg(self))
                && !id_resolvable(old(registry)@, moderation_arg(self)) ==> (r matches Err(e)
                && e matches ChatError::UserNotFound(es) && es@ == moderation_arg(self)),
            self is Mute && id_resolvable(old(registry)@, moderation_arg(self)) ==> (forall|c: u32|
                old(registry).contains_id(c) ==> #[trigger] final(registry).client_at(c)
                    == moderation_effect(
                    old(registry).client_at(c),
                    c,
                    numeral_value(moderation_arg(self)) as u32,
                    client_id,
                    old(registry).nickname_of(numeral_value(moderation_arg(self)) as u32),
                    true,
                    old(registry).outbound_of(numeral_value(moderation_arg(self)) as u32).len()
                        < SINK_CAPACITY,
                )),
            self is Unmute && id_resolvable(old(registry)@, moderation_arg(self)) ==> (forall|
                c: u32,
            |
                old(registry).contains_id(c) ==> #[trigger] final(registry).client_at(c)
                    == moderation_effect(
                    old(registry).client_at(c),
                    c,
                    numeral_value(moderation_arg(self)) as u32,
                    client_id,
                    old(registry).nickname_of(numeral_value(moderation_arg(self)) as u32),
                    false,
                    old(registry).outbound_of(numeral_value(moderation_arg(self)) as u32).len()
                        < SINK_CAPACITY,
                )),
            self is Info ==> (r is Ok ==> info_resolvable(self, old(registry)@)),
            self is Info && info_resolvable(self, old(registry)@) ==> ((r is Ok) == (!old(
                registry,
            ).contains_id(client_id) || old(registry).outbound_of(client_id).len()
                < SINK_CAPACITY)) && old(registry).contains_id(info_resolved(self, old(registry)@))
                && only_sender_enqueued(
                old(registry),
                final(registry),
                client_id,
                info_message(
                    old(registry).nickname_of(info_resolved(self, old(registry)@)),
                    info_resolved(self, old(registry)@),
                    old(registry).nickname_of(info_resolved(self, old(registry)@)),
                    old(registry).muted_of(info_resolved(self, old(registry)@)),
                ),
            ),
            self is Info && !info_resolvable(self, old(registry)@) ==> (r matches Err(e)
                && crate::target::reported_to_sender(old(registry), final(registry), client_id, &e)),
            !(self is Mute || self is Unmute) ==> others_unchanged(
                old(registry),
                final(registry),
                client_id,
            ),
    {
        match self {
            Commands::Help => {
                match HelpCommand.execute(nickname, registry, client_id) {
                    Ok(()) => Ok(true),
                    Err(e) => Err(e),
                }
            },
            Commands::Quit => {
                match QuitCommand.execute(nickname, registry, client_id) {
                    Ok(()) => Ok(false),
                    Err(e) => Err(e),
                }
            },
            Commands::Nickname(new_nickname) => {
                let args = new_nickname.clone();
                match NicknameCommand.execute(nickname, args.as_str(), registry, client_id) {
                    Ok(()) => Ok(true),
                    Err(e) => Err(e),
                }
            },
            Commands::List => {
                match ListCommand.execute(nickname, registry, client_id) {
                    Ok(()) => Ok(true),
                    Err(e) => Err(e),
                }
            },
            Commands::Mute(target_id) => {
                match MuteCommand.execute(target_id, registry, client_id) {
                    Ok(()) => Ok(true),
                    Err(e) => Err(e),
                }
            },
            Commands::Unmute(target_id) => {
                match UnmuteCommand.execute(target_id, registry, client_id) {
                    Ok(()) => Ok(true),
                    Err(e) => Err(e),
                }
            },
            Commands::Info(target) => {
                match InfoCommand.execute(target, registry, client_id) {
                    Ok(()) => Ok(true),
                    Err(e) => Err(e),
                }
            },
        }
    }
}

/// The static help text `/help` sends.
pub open spec fn help_text() -> Seq<char> {
    "Available commands:\n  /help - Display this help message\n  /nickname <new_nickname> - Change your nickname\n  /quit - Disconnect from the server\n  /list - List all connected users\n  /info <user_id or nickname> - Show a user's info\n  /mute <user_id> - Mute a user\n  /unmute <user_id> - Unmute a user\n"@
}

/// The notice sent back for a line that is not a recognized command.
pub open spec fn unrecognized_line(input: Seq<char>) -> Seq<char> {
    "Unrecognized command: "@ + input + ". Use /help to see available commands.\n"@
}

/// Sends the static help text to the sender.
pub struct HelpCommand;

impl HelpCommand {
    /// Create a new instance of the command.
    pub fn new() -> Self {
        HelpCommand
    }

    /// Queue the help text for the sender.
    pub fn execute(&self, nickname: &mut String, registry: &mut ClientRegistry, client_id: u32) -> (r:
        Result<(), ChatError>)
        requires
            old(registry).wf(),
        ensures
            final(registry).wf(),
            final(nickname)@ == old(nickname)@,
            only_sender_enqueued(old(registry), final(registry), client_id, help_text()),
            (r is Ok) == (!old(registry).contains_id(client_id) || old(registry).outbound_of(
                client_id,
            ).len() < SINK_CAPACITY),
            r is Err ==> r->Err_0 is MessageSendFailed,
    {
        let help_message = String::from_str(
            "Available commands:\n  /help - Display this help message\n  /nickname <new_nickname> - Change your nickname\n  /quit - Disconnect from the server\n  /list - List all connected users\n  /info <user_id or nickname> - Show a user's info\n  /mute <user_id> - Mute a user\n  /unmute <user_id> - Unmute a user\n",
        );
        registry.send_to(client_id, help_message)
    }
}

/// The departure line `/quit` queues for the leaving client.
pub open spec fn quit_line(nickname: Seq<char>) -> Seq<char> {
    nickname + " has left the chat.\n"@
}

/// Announces departure and asks the session to end.
pub struct QuitCommand;

impl QuitCommand {
    /// Create a new instance of the command.
    pub fn new() -> Self {
        QuitCommand
    }

    /// Queue the departure notice for the sender and clear its nickname; the
    /// dispatcher turns this command into the stop signal.
    pub fn execute(&self, nickname: &mut String, registry: &mut ClientRegistry, client_id: u32) -> (r:
        Result<(), ChatError>)
        requires
            old(registry).wf(),
        ensures
            final(registry).wf(),
            final(nickname)@ == Seq::<char>::empty(),
            only_sender_enqueued(
                old(registry),
                final(registry),
                client_id,
                quit_line(old(nickname)@),
            ),
            (r is Ok) == (!old(registry).contains_id(client_id) || old(registry).outbound_of(
                client_id,
            ).len() < SINK_CAPACITY),
            r is Err ==> r->Err_0 is MessageSendFailed,
    {
        let mut line = nickname.clone();
        line.append(" has left the chat.\n");
        let r = registry.send_to(client_id, line);
        *nickname = String::new();
        r
    }
}

/// The lines `/list` sends, one per registered client in registration order,
/// for the first `n` clients.
pub open spec fn list_body(v: Seq<ClientView>, n: int) -> Seq<char>
    decreases n,
{
    if n <= 0 {
        Seq::empty()
    } else {
        list_body(v, n - 1) + "  - "@ + v[n - 1].nickname + " (ID: "@ + dec_digits(
            v[n - 1].id as nat,
        ) + ")\n"@
    }
}

/// The whole `/list` report: a count line, then one line per client, or a
/// placeholder when nobody is connected.
pub open spec fn list_message(v: Seq<ClientView>) -> Seq<char> {
    "Connected users ("@ + dec_digits(v.len() as nat) + "):\n"@ + (if v.len() == 0 {
        "(No users currently connected)\n"@
    } else {
        list_body(v, v.len() as int)
    })
}

/// Lists the connected users.
pub struct ListCommand;

impl ListCommand {
    /// Create a new instance of the command.
    pub fn new() -> Self {
        ListCommand
    }

    /// Queue the membership report for the sender.
    pub fn execute(&self, nickname: &mut String, registry: &mut ClientRegistry, client_id: u32) -> (r:
        Result<(), ChatError>)
        requires
            old(registry).wf(),
        ensures
            final(registry).wf(),
            final(nickname)@ == old(nickname)@,
            only_sender_enqueued(
                old(registry),
                final(registry),
                client_id,
                list_message(old(registry)@),
            ),
            (r is Ok) == (!old(registry).contains_id(client_id) || old(registry).outbound_of(
                client_id,
            ).len() < SINK_CAPACITY),
            r is Err ==> r->Err_0 is MessageSendFailed,
    {
        let count = registry.len();
        let mut list_text = String::from_str("Connected users (");
        let count_digits = crate::text::u64_string(count as u64);
        list_text.append(count_digits.as_str());
        list_text.append("):\n");
        if count == 0 {
            list_text.append("(No users currently connected)\n");
        } else {
            let mut i: usize = 0;
            while i < count
                invariant
                    0 <= i <= count,
                    count == registry@.len(),
                    registry.wf(),
                    registry@ == old(registry)@,
                    list_text@ == "Connected users ("@ + dec_digits(count as nat) + "):\n"@
                        + list_body(registry@, i as int),
                decreases count - i,
            {
                list_text.append("  - ");
                let entry_nickname = registry.nickname_at(i);
                list_text.append(entry_nickname.as_str());
                list_text.append(" (ID: ");
                let id_digits = u32_string(registry.id_at(i));
                list_text.append(id_digits.as_str());
                list_text.append(")\n");
                i = i + 1;
            }
        }
        proof {
            if count == 0 {
                assert(list_text@ =~= list_message(old(registry)@));
            } else {
                assert(list_text@ =~= list_message(old(registry)@));
            }
        }
        registry.send_to(client_id, list_text)
    }
}

/// The info report `/info` sends about one client.
pub open spec fn info_message(
    target_nickname: Seq<char>,
    id: u32,
    nickname: Seq<char>,
    muted: bool,
) -> Seq<char> {
    "Info for "@ + target_nickname + " (ID: "@ + dec_digits(id as nat) + "):\n  - Nickname: "@
        + nickname + "\n  - Muted: "@ + (if muted {
        "Yes"@
    } else {
        "No"@
    }) + "\n"@
}

/// Reports one client's nickname and mute state.
pub struct InfoCommand;

impl InfoCommand {
    /// Create a new instance of the command.
    pub fn new() -> Self {
        InfoCommand
    }

    /// Resolve the target (id or nickname) and queue its info report for the
    /// sender; an unresolved target is reported to the sender with exactly
    /// one error line.
    pub fn execute(&self, target: &Target, registry: &mut ClientRegistry, client_id: u32) -> (r:
        Result<(), ChatError>)
        requires
            old(registry).wf(),
        ensures
            final(registry).wf(),
            forall|c: u32| final(registry).contains_id(c) == old(registry).contains_id(c),
            final(registry)@.len() == old(registry)@.len(),
            others_unchanged(old(registry), final(registry), client_id),
            r is Ok ==> target_resolvable(old(registry)@, target),
            !target_resolvable(old(registry)@, target) ==> (r matches Err(e) && !(e
                is MessageSendFailed) && crate::target::reported_to_sender(
                old(registry),
                final(registry),
                client_id,
                &e,
            )),
            target is Both && !target_resolvable(old(registry)@, target) ==> (r matches Err(e)
                && e matches ChatError::UserNotFound(es) && es@ == spec_target_str(target)),
            target_resolvable(old(registry)@, target) ==> ((r is Ok) == (!old(
                registry,
            ).contains_id(client_id) || old(registry).outbound_of(client_id).len()
                < SINK_CAPACITY)),
            target_resolvable(old(registry)@, target) && r is Err ==> r->Err_0
                is MessageSendFailed,
            target_resolvable(old(registry)@, target) ==> old(registry).contains_id(
                resolved_id(old(registry)@, target),
            ) && only_sender_enqueued(
                old(registry),
                final(registry),
                client_id,
                info_message(
                    old(registry).nickname_of(resolved_id(old(registry)@, target)),
                    resolved_id(old(registry)@, target),
                    old(registry).nickname_of(resolved_id(old(registry)@, target)),
                    old(registry).muted_of(resolved_id(old(registry)@, target)),
                ),
            ),
    {
        let target_user = match ValidatedTarget::from_target(target, registry, client_id) {
            Ok(t) => t,
            Err(e) => {
                return Err(e);
            },
        };
        let ghost tid = target_user.spec_id();
        let mut message = String::from_str("Info for ");
        message.append(target_user.nickname());
        message.append(" (ID: ");
        let id_digits = u32_string(target_user.id());
        message.append(id_digits.as_str());
        message.append("):\n  - Nickname: ");
        match registry.get(target_user.id()) {
            Some(snapshot) => {
                let (state_nickname, muted) = snapshot;
                message.append(state_nickname.as_str());
                message.append("\n  - Muted: ");
                if muted {
                    message.append("Yes");
                } else {
                    message.append("No");
                }
                message.append("\n");
                proof {
                    assert(message@ =~= info_message(
                        old(registry).nickname_of(tid),
                        tid,
                        old(registry).nickname_of(tid),
                        old(registry).muted_of(tid),
                    ));
                }
                let send_result = registry.send_to(client_id, message);
                proof {
                    assert(old(registry).contains_id(tid));
                    assert(tid == resolved_id(old(registry)@, target));
                }
                send_result
            },
            None => {
                let _ = registry.send_to(
                    client_id,
                    String::from_str("Error: No information found for user\n"),
                );
                Ok(())
            },
        }
    }
}


/// The rejection line for an empty nickname.
pub open spec fn nick_line_empty() -> Seq<char> {
    "Error: Nickname cannot be empty\n"@
}

/// The rejection line for a nickname over twenty characters.
pub open spec fn nick_line_too_long() -> Seq<char> {
    "Error: Nickname too long (max 20 chars)\n"@
}

/// The rejection line for a nickname with a character outside the alphabet.
pub open spec fn nick_line_invalid() -> Seq<char> {
    "Error: Nickname can only contain letters, numbers, and underscores\n"@
}

/// The rejection line for a nickname another client already carries.
pub open spec fn nick_line_taken(name: Seq<char>) -> Seq<char> {
    "Error: Nickname '"@ + name + "' is already in use\n"@
}

/// The confirmation line for a successful rename.
pub open spec fn nick_line_changed(old_name: Seq<char>, new_name: Seq<char>) -> Seq<char> {
    "Nickname changed from '"@ + old_name + "' to '"@ + new_name + "'\n"@
}

/// Changes the sender's nickname after validation.
pub struct NicknameCommand;

impl NicknameCommand {
    /// Create a new instance of the command.
    pub fn new() -> Self {
        NicknameCommand
    }

    /// Validate and apply a rename. The checks run in order — empty, too
    /// long, bad character, taken by another client (case-insensitively) —
    /// and the first failing check sends its rejection line and leaves every
    /// nickname unchanged. On success both the session's nickname and the
    /// registry entry take the new name and the sender gets a confirmation;
    /// no rename is announced to other clients.
    pub fn execute(
        &self,
        nickname: &mut String,
        args: &str,
        registry: &mut ClientRegistry,
        client_id: u32,
    ) -> (r: Result<(), ChatError>)
        requires
            old(registry).wf(),
        ensures
            final(registry).wf(),
            forall|c: u32| final(registry).contains_id(c) == old(registry).contains_id(c),
            final(registry)@.len() == old(registry)@.len(),
            others_unchanged(old(registry), final(registry), client_id),
            r is Err ==> r->Err_0 is MessageSendFailed,
            (r is Ok) == (!old(registry).contains_id(client_id) || old(registry).outbound_of(
                client_id,
            ).len() < SINK_CAPACITY),
            spec_trim(args@).len() == 0 ==> only_sender_enqueued(
                old(registry),
                final(registry),
                client_id,
                nick_line_empty(),
            ) && final(nickname)@ == old(nickname)@,
            spec_trim(args@).len() > 20 ==> only_sender_enqueued(
                old(registry),
                final(registry),
                client_id,
                nick_line_too_long(),
            ) && final(nickname)@ == old(nickname)@,
            1 <= spec_trim(args@).len() <= 20 && !nickname_chars_ok(spec_trim(args@))
                ==> only_sender_enqueued(
                old(registry),
                final(registry),
                client_id,
                nick_line_invalid(),
            ) && final(nickname)@ == old(nickname)@,
            valid_nickname(spec_trim(args@)) && old(registry).nickname_taken(
                spec_trim(args@),
                client_id,
            ) ==> only_sender_enqueued(
                old(registry),
                final(registry),
                client_id,
                nick_line_taken(spec_trim(args@)),
            ) && final(nickname)@ == old(nickname)@,
            valid_nickname(spec_trim(args@)) && !old(registry).nickname_taken(
                spec_trim(args@),
                client_id,
            ) ==> final(nickname)@ == spec_trim(args@) && (!old(registry).contains_id(client_id)
                ==> final(registry)@ == old(registry)@) && (old(registry).contains_id(client_id)
                ==> final(registry).client_at(client_id) == (ClientView {
                nickname: spec_trim(args@),
                outbound: enqueue_spec(
                    old(registry).outbound_of(client_id),
                    nick_line_changed(old(nickname)@, spec_trim(args@)),
                ),
                ..old(registry).client_at(client_id)
            })) && (forall|c: u32|
                c != client_id && old(registry).contains_id(c) ==> final(registry).client_at(c)
                    == old(registry).client_at(c)),
    {
        let new_nickname = trim(args);
        let len = new_nickname.unicode_len();
        if len == 0 {
            return registry.send_to(client_id, String::from_str("Error: Nickname cannot be empty\n"));
        }
        if len > 20 {
            return registry.send_to(
                client_id,
                String::from_str("Error: Nickname too long (max 20 chars)\n"),
            );
        }
        let mut i: usize = 0;
        while i < len
            invariant
                0 <= i <= len,
                len == new_nickname@.len(),
                new_nickname@ == spec_trim(args@),
                1 <= len <= 20,
                forall|j: int| 0 <= j < i ==> is_name_char(new_nickname@[j]),
                *registry == *old(registry),
                old(registry).wf(),
                nickname@ == old(nickname)@,
            decreases len - i,
        {
            if !name_char(new_nickname.get_char(i)) {
                return registry.send_to(
                    client_id,
                    String::from_str(
                        "Error: Nickname can only contain letters, numbers, and underscores\n",
                    ),
                );
            }
            i = i + 1;
        }
        if registry.is_nickname_taken(new_nickname, client_id) {
            let mut line = String::from_str("Error: Nickname '");
            line.append(new_nickname);
            line.append("' is already in use\n");
            return registry.send_to(client_id, line);
        }
        let old_nickname = nickname.clone();
        *nickname = String::from_str(new_nickname);
        let _ = registry.set_nickname(client_id, String::from_str(new_nickname));
        let mut line = String::from_str("Nickname changed from '");
        line.append(old_nickname.as_str());
        line.append("' to '");
        line.append(nickname.as_str());
        line.append("'\n");
        registry.send_to(client_id, line)
    }
}

/// Every character of the candidate nickname is in the alphabet.
pub open spec fn nickname_chars_ok(s: Seq<char>) -> bool {
    forall|i: int| 0 <= i < s.len() ==> is_name_char(s[i])
}

/// The notice queued for the client whose mute flag was turned on or off.
pub open spec fn mod_notice(mute: bool) -> Seq<char> {
    if mute {
        "You have been muted by a moderator. You cannot send messages.\n"@
    } else {
        "You have been unmuted. You can now send messages.\n"@
    }
}

/// The announcement broadcast to every client after a mute or unmute.
pub open spec fn mod_broadcast(mute: bool, nickname: Seq<char>) -> Seq<char> {
    if mute {
        nickname + " has been muted by a moderator.\n"@
    } else {
        nickname + " has been unmuted.\n"@
    }
}

/// The confirmation queued for the moderator.
pub open spec fn mod_confirm(mute: bool, nickname: Seq<char>, id: u32) -> Seq<char> {
    (if mute {
        "Muted user "@
    } else {
        "Unmuted user "@
    }) + nickname + " (ID: "@ + dec_digits(id as nat) + ")\n"@
}

/// A mute or unmute succeeds outright: the target resolves, its queue takes
/// the notice, and the moderator's queue (after the notice, when moderator
/// and target coincide, and the announcement) still has room for the
/// confirmation. An absent moderator loses nothing and counts as success.
pub open spec fn moderation_ok(
    pre: &ClientRegistry,
    sender: u32,
    arg: Seq<char>,
    mute: bool,
) -> bool {
    id_resolvable(pre@, arg) && pre.outbound_of(numeral_value(arg) as u32).len() < SINK_CAPACITY
        && (!pre.contains_id(sender) || enqueue_spec(
        (if sender == numeral_value(arg) as u32 {
            enqueue_spec(pre.outbound_of(sender), mod_notice(mute))
        } else {
            pre.outbound_of(sender)
        }),
        mod_broadcast(mute, pre.nickname_of(numeral_value(arg) as u32)),
    ).len() < SINK_CAPACITY)
}

/// What a mute or unmute does to one client's queue: the target is offered
/// the notice; when the notice was queued (the command aborts otherwise),
/// everyone is offered the announcement and the moderator the confirmation.
pub open spec fn moderation_queue_effect(
    q: Seq<Seq<char>>,
    c: u32,
    tid: u32,
    sender: u32,
    notice: Seq<char>,
    announce: Seq<char>,
    confirm: Seq<char>,
    notice_ok: bool,
) -> Seq<Seq<char>> {
    let q1 = if c == tid {
        enqueue_spec(q, notice)
    } else {
        q
    };
    if !notice_ok {
        q1
    } else {
        let q2 = enqueue_spec(q1, announce);
        if c == sender {
            enqueue_spec(q2, confirm)
        } else {
            q2
        }
    }
}

/// The full effect of a mute or unmute on one client's snapshot.
pub open spec fn moderation_effect(
    pre: ClientView,
    c: u32,
    tid: u32,
    sender: u32,
    target_nickname: Seq<char>,
    mute: bool,
    notice_ok: bool,
) -> ClientView {
    ClientView {
        muted: (if c == tid {
            mute
        } else {
            pre.muted
        }),
        outbound: moderation_queue_effect(
            pre.outbound,
            c,
            tid,
            sender,
            mod_notice(mute),
            mod_broadcast(mute, target_nickname),
            mod_confirm(mute, target_nickname, tid),
            notice_ok,
        ),
        ..pre
    }
}

/// Turn the mute flag of the target on or off, notify the target, announce
/// the change to everyone, and confirm to the moderator.
fn moderate(
    target_id: &TargetId,
    registry: &mut ClientRegistry,
    client_id: u32,
    mute: bool,
) -> (r: Result<(), ChatError>)
    requires
        old(registry).wf(),
    ensures
        final(registry).wf(),
        forall|c: u32| final(registry).contains_id(c) == old(registry).contains_id(c),
        final(registry)@.len() == old(registry)@.len(),
        (r is Err && !(r->Err_0 is MessageSendFailed)) == !id_resolvable(
            old(registry)@,
            target_id.0@,
        ),
        (r is Ok) == moderation_ok(old(registry), client_id, target_id.0@, mute),
        !is_u32_numeral(target_id.0@) ==> (r matches Err(e) && e matches ChatError::InvalidUserId(
            s,
        ) && s@ == target_id.0@),
        is_u32_numeral(target_id.0@) && !id_resolvable(old(registry)@, target_id.0@) ==> (
        r matches Err(e) && e matches ChatError::UserNotFound(s) && s@ == target_id.0@),
        id_resolvable(old(registry)@, target_id.0@) && r is Err ==> r->Err_0 is MessageSendFailed,
        !id_resolvable(old(registry)@, target_id.0@) ==> (r matches Err(e)
            && crate::target::reported_to_sender(old(registry), final(registry), client_id, &e)),
        id_resolvable(old(registry)@, target_id.0@) ==> (forall|c: u32|
            old(registry).contains_id(c) ==> #[trigger] final(registry).client_at(c)
                == moderation_effect(
                old(registry).client_at(c),
                c,
                numeral_value(target_id.0@) as u32,
                client_id,
                old(registry).nickname_of(numeral_value(target_id.0@) as u32),
                mute,
                old(registry).outbound_of(numeral_value(target_id.0@) as u32).len() < SINK_CAPACITY,
            )),
        id_resolvable(old(registry)@, target_id.0@) && old(registry).outbound_of(
            numeral_value(target_id.0@) as u32,
        ).len() >= SINK_CAPACITY ==> (r matches Err(e) && e is MessageSendFailed),
{
    let target = match ValidatedTarget::from_target_id(target_id, registry, client_id) {
        Ok(t) => t,
        Err(e) => {
            return Err(e);
        },
    };
    let ghost r0 = *old(registry);
    let ghost tid = target.spec_id();
    let ghost target_nick = target.spec_nickname();
    let ghost notice_ok = r0.outbound_of(tid).len() < SINK_CAPACITY;
    proof {
        r0.lemma_client_at(tid);
    }
    let _ = if mute {
        registry.mute(target.id())
    } else {
        registry.unmute(target.id())
    };
    let ghost r1 = *registry;
    proof {
        assert(r1.contains_id(tid));
        assert(r1.client_at(tid).outbound == r0.client_at(tid).outbound);
    }
    let notice = if mute {
        "You have been muted by a moderator. You cannot send messages.\n"
    } else {
        "You have been unmuted. You can now send messages.\n"
    };
    let notice_result = target.send_message(registry, notice);
    let ghost r2 = *registry;
    match notice_result {
        Err(e) => {
            proof {
                assert(!notice_ok);
                assert forall|c: u32| r0.contains_id(c) implies #[trigger] registry.client_at(c)
                    == moderation_effect(r0.client_at(c), c, tid, client_id, target_nick, mute, notice_ok) by {
                    assert(r1.contains_id(c));
                    if c == tid {
                        assert(r1.client_at(c) == (ClientView { muted: mute, ..r0.client_at(c) }));
                        assert(registry.client_at(c) == (ClientView {
                            outbound: enqueue_spec(r1.client_at(c).outbound, mod_notice(mute)),
                            ..r1.client_at(c)
                        }));
                    } else {
                        assert(r1.client_at(c) == r0.client_at(c));
                        assert(registry.client_at(c) == r1.client_at(c));
                    }
                    assert(registry.client_at(c) =~= moderation_effect(
                        r0.client_at(c),
                        c,
                        tid,
                        client_id,
                        target_nick,
                        mute,
                        notice_ok,
                    ));
                }
            }
            return Err(e);
        },
        Ok(()) => {},
    }
    let mut announce = String::from_str("");
    announce.append(target.nickname());
    if mute {
        announce.append(" has been muted by a moderator.\n");
    } else {
        announce.append(" has been unmuted.\n");
    }
    proof {
        reveal_strlit("");
        assert(announce@ =~= mod_broadcast(mute, target_nick));
    }
    let _ = ValidatedTarget::broadcast_to_all(registry, announce.as_str());
    let ghost r3 = *registry;
    let mut confirm = if mute {
        String::from_str("Muted user ")
    } else {
        String::from_str("Unmuted user ")
    };
    confirm.append(target.nickname());
    confirm.append(" (ID: ");
    let id_digits = u32_string(target.id());
    confirm.append(id_digits.as_str());
    confirm.append(")\n");
    proof {
        assert(confirm@ =~= mod_confirm(mute, target_nick, tid));
        if r0.contains_id(client_id) {
            assert(r1.contains_id(client_id) && r2.contains_id(client_id) && r3.contains_id(
                client_id,
            ));
            if client_id == tid {
                assert(r1.client_at(client_id) == (ClientView {
                    muted: mute,
                    ..r0.client_at(client_id)
                }));
                assert(r2.client_at(client_id) == (ClientView {
                    outbound: enqueue_spec(r1.client_at(client_id).outbound, mod_notice(mute)),
                    ..r1.client_at(client_id)
                }));
            } else {
                assert(r1.client_at(client_id) == r0.client_at(client_id));
                assert(r2.client_at(client_id) == r1.client_at(client_id));
            }
            assert(r3.client_at(client_id) == (ClientView {
                outbound: enqueue_spec(
                    r2.client_at(client_id).outbound,
                    mod_broadcast(mute, target_nick),
                ),
                ..r2.client_at(client_id)
            }));
            assert(r3.outbound_of(client_id) =~= enqueue_spec(
                (if client_id == tid {
                    enqueue_spec(r0.outbound_of(client_id), mod_notice(mute))
                } else {
                    r0.outbound_of(client_id)
                }),
                mod_broadcast(mute, target_nick),
            ));
        } else {
            assert(!r3.contains_id(client_id));
        }
    }
    let send_result = registry.send_to(client_id, confirm);
    proof {
        assert(notice_ok);
        assert forall|c: u32| r0.contains_id(c) implies #[trigger] registry.client_at(c)
            == moderation_effect(r0.client_at(c), c, tid, client_id, target_nick, mute, notice_ok) by {
            assert(r1.contains_id(c) && r2.contains_id(c) && r3.contains_id(c));
            if c == tid {
                assert(r1.client_at(c) == (ClientView { muted: mute, ..r0.client_at(c) }));
                assert(r2.client_at(c) == (ClientView {
                    outbound: enqueue_spec(r1.client_at(c).outbound, mod_notice(mute)),
                    ..r1.client_at(c)
                }));
            } else {
                assert(r1.client_at(c) == r0.client_at(c));
                assert(r2.client_at(c) == r1.client_at(c));
            }
            assert(r3.client_at(c) == (ClientView {
                outbound: enqueue_spec(r2.client_at(c).outbound, mod_broadcast(mute, target_nick)),
                ..r2.client_at(c)
            }));
            if c == client_id {
                assert(registry.client_at(c) == (ClientView {
                    outbound: enqueue_spec(
                        r3.client_at(c).outbound,
                        mod_confirm(mute, target_nick, tid),
                    ),
                    ..r3.client_at(c)
                }));
            } else {
                assert(registry.client_at(c) == r3.client_at(c));
            }
            assert(registry.client_at(c) =~= moderation_effect(
                r0.client_at(c),
                c,
                tid,
                client_id,
                target_nick,
                mute,
                notice_ok,
            ));
        }
    }
    send_result
}

/// Mutes a user by id.
pub struct MuteCommand;

impl MuteCommand {
    /// Create a new instance of the command.
    pub fn new() -> Self {
        MuteCommand
    }

    /// Mute the target, notify it, announce the mute to everyone, and
    /// confirm to the moderator. Muting an already-muted client re-applies
    /// the flag and re-announces: the command does not gate on a state
    /// change, so repeating it is harmless.
    pub fn execute(&self, target_id: &TargetId, registry: &mut ClientRegistry, client_id: u32) -> (r:
        Result<(), ChatError>)
        requires
            old(registry).wf(),
        ensures
            final(registry).wf(),
            forall|c: u32| final(registry).contains_id(c) == old(registry).contains_id(c),
            final(registry)@.len() == old(registry)@.len(),
            (r is Ok) == moderation_ok(old(registry), client_id, target_id.0@, true),
            !is_u32_numeral(target_id.0@) ==> (r matches Err(e)
                && e matches ChatError::InvalidUserId(s) && s@ == target_id.0@),
            is_u32_numeral(target_id.0@) && !id_resolvable(old(registry)@, target_id.0@) ==> (
            r matches Err(e) && e matches ChatError::UserNotFound(s) && s@ == target_id.0@),
            id_resolvable(old(registry)@, target_id.0@) && r is Err ==> r->Err_0
                is MessageSendFailed,
            !id_resolvable(old(registry)@, target_id.0@) ==> (r matches Err(e)
                && crate::target::reported_to_sender(old(registry), final(registry), client_id, &e)),
            id_resolvable(old(registry)@, target_id.0@) ==> (forall|c: u32|
                old(registry).contains_id(c) ==> #[trigger] final(registry).client_at(c)
                    == moderation_effect(
                    old(registry).client_at(c),
                    c,
                    numeral_value(target_id.0@) as u32,
                    client_id,
                    old(registry).nickname_of(numeral_value(target_id.0@) as u32),
                    true,
                    old(registry).outbound_of(numeral_value(target_id.0@) as u32).len()
                        < SINK_CAPACITY,
                )),
    {
        moderate(target_id, registry, client_id, true)
    }
}

/// Unmutes a user by id; the mirror of `MuteCommand`.
pub struct UnmuteCommand;

impl UnmuteCommand {
    /// Create a new instance of the command.
    pub fn new() -> Self {
        UnmuteCommand
    }

    /// Unmute the target, notify it, announce the change to everyone, and
    /// confirm to the moderator.
    pub fn execute(&self, target_id: &TargetId, registry: &mut ClientRegistry, client_id: u32) -> (r:
        Result<(), ChatError>)
        requires
            old(registry).wf(),
        ensures
            final(registry).wf(),
            forall|c: u32| final(registry).contains_id(c) == old(registry).contains_id(c),
            final(registry)@.len() == old(registry)@.len(),
            (r is Ok) == moderation_ok(old(registry), client_id, target_id.0@, false),
            !is_u32_numeral(target_id.0@) ==> (r matches Err(e)
                && e matches ChatError::InvalidUserId(s) && s@ == target_id.0@),
            is_u32_numeral(target_id.0@) && !id_resolvable(old(registry)@, target_id.0@) ==> (
            r matches Err(e) && e matches ChatError::UserNotFound(s) && s@ == target_id.0@),
            id_resolvable(old(registry)@, target_id.0@) && r is Err ==> r->Err_0
                is MessageSendFailed,
            !id_resolvable(old(registry)@, target_id.0@) ==> (r matches Err(e)
                && crate::target::reported_to_sender(old(registry), final(registry), client_id, &e)),
            id_resolvable(old(registry)@, target_id.0@) ==> (forall|c: u32|
                old(registry).contains_id(c) ==> #[trigger] final(registry).client_at(c)
                    == moderation_effect(
                    old(registry).client_at(c),
                    c,
                    numeral_value(target_id.0@) as u32,
                    client_id,
                    old(registry).nickname_of(numeral_value(target_id.0@) as u32),
                    false,
                    old(registry).outbound_of(numeral_value(target_id.0@) as u32).len()
                        < SINK_CAPACITY,
                )),
    {
        moderate(target_id, registry, client_id, false)
    }
}

} // verus!
