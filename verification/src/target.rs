//! Target resolution: turning a user-supplied string — a numeric id, a
//! nickname, or either — into a concrete registered client, with exact
//! failure reporting.

use vstd::prelude::*;
use vstd::string::StringExecFns;
use vstd::string::StrSliceExecFns;

use crate::error::ChatError;
use crate::registry::{first_ci_match, lemma_first_ci_match, seq_contains_id, ClientRegistry, ClientView};
use crate::shared_state::enqueue_spec;
use crate::text::{is_u32_numeral, numeral_value, parse_u32, seq_eq_ci, spec_trim, trim};

verus! {

/// A raw target reference: a numeric id, a nickname, or a string that may be
/// either (tried as an id first).
pub enum Target {
    Id(String),
    Name(String),
    Both(String),
}

/// A raw target that must be a numeric id.
pub struct TargetId(pub String);

/// A raw target that must be a nickname.
pub struct TargetName(pub String);

/// A resolved target: a registered client's id and a snapshot of its
/// nickname at resolution time.
pub struct ValidatedTarget {
    id: u32,
    nickname: String,
}

/// The inner string of a raw target.
pub open spec fn spec_target_str(t: &Target) -> Seq<char> {
    match t {
        Target::Id(s) => s@,
        Target::Name(s) => s@,
        Target::Both(s) => s@,
    }
}

/// The string names a registered client by id: it is a well-formed `u32`
/// numeral and that id is present.
pub open spec fn id_resolvable(v: Seq<ClientView>, s: Seq<char>) -> bool {
    is_u32_numeral(s) && seq_contains_id(v, numeral_value(s) as u32)
}

/// The string names a registered client by nickname, up to ASCII case.
pub open spec fn name_resolvable(v: Seq<ClientView>, s: Seq<char>) -> bool {
    first_ci_match(v, s) is Some
}

/// An ambiguous string names a registered client: by id, or failing that by
/// nickname.
pub open spec fn ambiguous_resolvable(v: Seq<ClientView>, s: Seq<char>) -> bool {
    id_resolvable(v, s) || name_resolvable(v, s)
}

/// The client an ambiguous string names: the id it reads as when that id is
/// registered, otherwise the first client whose nickname matches.
pub open spec fn ambiguous_resolved(v: Seq<ClientView>, s: Seq<char>) -> u32 {
    if id_resolvable(v, s) {
        numeral_value(s) as u32
    } else {
        v[first_ci_match(v, s)->0].id
    }
}

/// A raw target resolves against the given registry contents.
pub open spec fn target_resolvable(v: Seq<ClientView>, t: &Target) -> bool {
    match t {
        Target::Id(s) => id_resolvable(v, s@),
        Target::Name(s) => name_resolvable(v, s@),
        Target::Both(s) => ambiguous_resolvable(v, s@),
    }
}

/// The client a resolvable raw target names.
pub open spec fn resolved_id(v: Seq<ClientView>, t: &Target) -> u32 {
    match t {
        Target::Id(s) => numeral_value(s@) as u32,
        Target::Name(s) => v[first_ci_match(v, s@)->0].id,
        Target::Both(s) => ambiguous_resolved(v, s@),
    }
}

impl Target {
    /// A target that may be an id or a name, from a command argument:
    /// trimmed, and rejected when empty.
    pub fn from_args(args: &str) -> (r: Option<Self>)
        ensures
            (r is Some) == (spec_trim(args@).len() != 0),
            r matches Some(t) ==> (t matches Target::Both(s) && s@ == spec_trim(args@)),
    {
        let trimmed = trim(args);
        if trimmed.unicode_len() == 0 {
            None
        } else {
            Some(Target::Both(String::from_str(trimmed)))
        }
    }

    /// The inner string value regardless of variant.
    pub fn as_str(&self) -> (r: &str)
        ensures
            r@ == spec_target_str(self),
    {
        match self {
            Target::Id(s) => s.as_str(),
            Target::Name(s) => s.as_str(),
            Target::Both(s) => s.as_str(),
        }
    }
}

impl TargetId {
    /// An id target from a command argument: trimmed, and rejected when
    /// empty.
    pub fn from_args(args: &str) -> (r: Option<Self>)
        ensures
            (r is Some) == (spec_trim(args@).len() != 0),
            r matches Some(t) ==> t.0@ == spec_trim(args@),
    {
        let trimmed = trim(args);
        if trimmed.unicode_len() == 0 {
            None
        } else {
            Some(TargetId(String::from_str(trimmed)))
        }
    }
}

impl TargetName {
    /// A name target from a command argument: trimmed, and rejected when
    /// empty.
    pub fn from_args(args: &str) -> (r: Option<Self>)
        ensures
            (r is Some) == (spec_trim(args@).len() != 0),
            r matches Some(t) ==> t.0@ == spec_trim(args@),
    {
        let trimmed = trim(args);
        if trimmed.unicode_len() == 0 {
            None
        } else {
            Some(TargetName(String::from_str(trimmed)))
        }
    }
}

/// Resolve a string as a numeric id: `InvalidUserId` when it is not a `u32`
/// numeral, `UserNotFound` when no client carries the id.
pub fn resolve_id(registry: &ClientRegistry, id_str: &str) -> (r: Result<ValidatedTarget, ChatError>)
    requires
        registry.wf(),
    ensures
        (r is Ok) == id_resolvable(registry@, id_str@),
        r matches Ok(t) ==> t.spec_id() == numeral_value(id_str@) as u32 && registry.contains_id(
            t.spec_id(),
        ) && t.spec_nickname() == registry.nickname_of(t.spec_id()),
        !is_u32_numeral(id_str@) ==> (r matches Err(e) && e matches ChatError::InvalidUserId(s)
            && s@ == id_str@),
        is_u32_numeral(id_str@) && !id_resolvable(registry@, id_str@) ==> (r matches Err(e)
            && e matches ChatError::UserNotFound(s) && s@ == id_str@),
{
    match parse_u32(id_str) {
        None => Err(ChatError::InvalidUserId(String::from_str(id_str))),
        Some(user_id) => {
            match registry.get(user_id) {
                Some(snapshot) => {
                    let (nickname, _) = snapshot;
                    Ok(ValidatedTarget { id: user_id, nickname })
                },
                None => Err(ChatError::UserNotFound(String::from_str(id_str))),
            }
        },
    }
}

/// Resolve a string as a nickname, case-insensitively; the first registered
/// match wins. `UserNotFound` when no nickname matches.
pub fn resolve_name(registry: &ClientRegistry, name: &str) -> (r: Result<
    ValidatedTarget,
    ChatError,
>)
    requires
        registry.wf(),
    ensures
        (r is Ok) == name_resolvable(registry@, name@),
        r matches Ok(t) ==> (first_ci_match(registry@, name@) matches Some(ix) && t.spec_id()
            == registry@[ix].id && t.spec_nickname() == registry@[ix].nickname
            && registry.contains_id(t.spec_id())),
        r matches Ok(t) ==> t.spec_nickname() == registry.nickname_of(t.spec_id()),
        r matches Err(e) ==> (e matches ChatError::UserNotFound(s) && s@ == name@),
{
    match registry.find_by_nickname(name) {
        Some(found) => {
            let (id, nickname) = found;
            proof {
                lemma_first_ci_match(registry@, name@, 0);
                let ix = first_ci_match(registry@, name@)->0;
                assert(registry@[ix].id == id);
                assert(seq_contains_id(registry@, id));
                registry.lemma_client_at(id);
            }
            Ok(ValidatedTarget { id, nickname })
        },
        None => Err(ChatError::UserNotFound(String::from_str(name))),
    }
}

/// Resolve a raw target: ids and names each their own way, and an ambiguous
/// target as an id first with a fallback to nickname lookup.
pub fn resolve_target(registry: &ClientRegistry, target: &Target) -> (r: Result<
    ValidatedTarget,
    ChatError,
>)
    requires
        registry.wf(),
    ensures
        (r is Ok) == target_resolvable(registry@, target),
        r matches Ok(t) ==> registry.contains_id(t.spec_id()) && t.spec_nickname()
            == registry.nickname_of(t.spec_id()),
        r matches Ok(t) ==> t.spec_id() == resolved_id(registry@, target),
        (target is Both || target is Id) && id_resolvable(registry@, spec_target_str(target))
            ==> (r matches Ok(t) && t.spec_id() == numeral_value(spec_target_str(target)) as u32),
        (target is Both || target is Name) && !(target is Both && id_resolvable(
            registry@,
            spec_target_str(target),
        )) && !(target is Id) && name_resolvable(registry@, spec_target_str(target)) ==> (
        r matches Ok(t) && first_ci_match(registry@, spec_target_str(target)) matches Some(ix)
            && t.spec_id() == registry@[ix].id),
        target is Id && !is_u32_numeral(spec_target_str(target)) ==> (r matches Err(e)
            && e matches ChatError::InvalidUserId(es) && es@ == spec_target_str(target)),
        target is Id && is_u32_numeral(spec_target_str(target)) && !id_resolvable(
            registry@,
            spec_target_str(target),
        ) ==> (r matches Err(e) && e matches ChatError::UserNotFound(es) && es@
            == spec_target_str(target)),
        target is Name && !name_resolvable(registry@, spec_target_str(target)) ==> (r matches Err(
            e,
        ) && e matches ChatError::UserNotFound(es) && es@ == spec_target_str(target)),
        target is Both && !target_resolvable(registry@, target) ==> (r matches Err(e)
            && e matches ChatError::UserNotFound(es) && es@ == spec_target_str(target)),
{
    match target {
        Target::Id(s) => resolve_id(registry, s.as_str()),
        Target::Name(s) => resolve_name(registry, s.as_str()),
        Target::Both(s) => {
            match resolve_id(registry, s.as_str()) {
                Ok(t) => Ok(t),
                Err(_) => resolve_name(registry, s.as_str()),
            }
        },
    }
}

impl ValidatedTarget {
    /// The resolved client's id.
    pub closed spec fn spec_id(&self) -> u32 {
        self.id
    }

    /// The nickname snapshot taken at resolution time.
    pub closed spec fn spec_nickname(&self) -> Seq<char> {
        self.nickname@
    }

    /// Resolve a raw target, and on failure report one explanatory line to
    /// the sender's queue before returning the error.
    pub fn from_target(target: &Target, registry: &mut ClientRegistry, sender: u32) -> (r: Result<
        Self,
        ChatError,
    >)
        requires
            old(registry).wf(),
        ensures
            final(registry).wf(),
            (r is Ok) == target_resolvable(old(registry)@, target),
            r is Ok ==> final(registry)@ == old(registry)@,
            r matches Ok(t) ==> (old(registry).contains_id(t.spec_id()) && t.spec_nickname()
                == old(registry).nickname_of(t.spec_id())),
            r matches Ok(t) ==> t.spec_id() == resolved_id(old(registry)@, target),
            r matches Err(e) ==> reported_to_sender(old(registry), final(registry), sender, &e),
            target is Id && !is_u32_numeral(spec_target_str(target)) ==> (r matches Err(e)
                && e matches ChatError::InvalidUserId(es) && es@ == spec_target_str(target)),
            target is Id && is_u32_numeral(spec_target_str(target)) && !id_resolvable(
                old(registry)@,
                spec_target_str(target),
            ) ==> (r matches Err(e) && e matches ChatError::UserNotFound(es) && es@
                == spec_target_str(target)),
            target is Name && !name_resolvable(old(registry)@, spec_target_str(target)) ==> (
            r matches Err(e) && e matches ChatError::UserNotFound(es) && es@ == spec_target_str(
                target,
            )),
            target is Both && !target_resolvable(old(registry)@, target) ==> (r matches Err(e)
                && e matches ChatError::UserNotFound(es) && es@ == spec_target_str(target)),
    {
        let attempt = resolve_target(registry, target);
        match attempt {
            Ok(t) => Ok(t),
            Err(e) => {
                report_error(registry, sender, &e);
                Err(e)
            },
        }
    }

    /// Resolve an id target, reporting on failure as `from_target` does.
    pub fn from_target_id(target_id: &TargetId, registry: &mut ClientRegistry, sender: u32) -> (r:
        Result<Self, ChatError>)
        requires
            old(registry).wf(),
        ensures
            final(registry).wf(),
            (r is Ok) == id_resolvable(old(registry)@, target_id.0@),
            r is Ok ==> final(registry)@ == old(registry)@,
            r matches Ok(t) ==> (t.spec_id() == numeral_value(target_id.0@) as u32 && old(
                registry,
            ).contains_id(t.spec_id()) && t.spec_nickname() == old(registry).nickname_of(
                t.spec_id(),
            )),
            r matches Err(e) ==> reported_to_sender(old(registry), final(registry), sender, &e),
            !is_u32_numeral(target_id.0@) ==> (r matches Err(e)
                && e matches ChatError::InvalidUserId(s) && s@ == target_id.0@),
            is_u32_numeral(target_id.0@) && !id_resolvable(old(registry)@, target_id.0@)
                ==> (r matches Err(e) && e matches ChatError::UserNotFound(s) && s@
                == target_id.0@),
    {
        let attempt = resolve_id(registry, target_id.0.as_str());
        match attempt {
            Ok(t) => Ok(t),
            Err(e) => {
                report_error(registry, sender, &e);
                Err(e)
            },
        }
    }

    /// Resolve a name target, reporting on failure as `from_target` does.
    pub fn from_target_name(
        target_name: &TargetName,
        registry: &mut ClientRegistry,
        sender: u32,
    ) -> (r: Result<Self, ChatError>)
        requires
            old(registry).wf(),
        ensures
            final(registry).wf(),
            (r is Ok) == name_resolvable(old(registry)@, target_name.0@),
            r is Ok ==> final(registry)@ == old(registry)@,
            r matches Ok(t) ==> (old(registry).contains_id(t.spec_id()) && t.spec_nickname()
                == old(registry).nickname_of(t.spec_id())),
            r matches Err(e) ==> (e matches ChatError::UserNotFound(s) && s@ == target_name.0@
                && reported_to_sender(old(registry), final(registry), sender, &e)),
    {
        let attempt = resolve_name(registry, target_name.0.as_str());
        match attempt {
            Ok(t) => Ok(t),
            Err(e) => {
                report_error(registry, sender, &e);
                Err(e)
            },
        }
    }

    /// The target's user id.
    pub fn id(&self) -> (r: u32)
        ensures
            r == self.spec_id(),
    {
        self.id
    }

    /// The target's nickname snapshot.
    pub fn nickname(&self) -> (r: &str)
        ensures
            r@ == self.spec_nickname(),
    {
        self.nickname.as_str()
    }

    /// Queue a direct line for this target, when it is still registered.
    pub fn send_message(&self, registry: &mut ClientRegistry, message: &str) -> (r: Result<
        (),
        ChatError,
    >)
        requires
            old(registry).wf(),
        ensures
            final(registry).wf(),
            forall|c: u32| final(registry).contains_id(c) == old(registry).contains_id(c),
            !old(registry).contains_id(self.spec_id()) ==> final(registry)@ == old(registry)@ && r
                is Ok,
            old(registry).contains_id(self.spec_id()) ==> final(registry).client_at(self.spec_id())
                == (ClientView {
                outbound: enqueue_spec(old(registry).outbound_of(self.spec_id()), message@),
                ..old(registry).client_at(self.spec_id())
            }),
            old(registry).contains_id(self.spec_id()) ==> ((r is Ok) == (old(
                registry,
            ).outbound_of(self.spec_id()).len() < crate::shared_state::SINK_CAPACITY)),
            r is Err ==> r->Err_0 is MessageSendFailed,
            forall|c: u32|
                c != self.spec_id() && old(registry).contains_id(c) ==> final(registry).client_at(c)
                    == old(registry).client_at(c),
            final(registry)@.len() == old(registry)@.len(),
    {
        registry.send_to(self.id, String::from_str(message))
    }

    /// Queue a line for every registered client, the target included.
    pub fn broadcast_to_all(registry: &mut ClientRegistry, message: &str) -> (r: Result<
        (),
        ChatError,
    >)
        requires
            old(registry).wf(),
        ensures
            final(registry).wf(),
            final(registry)@.len() == old(registry)@.len(),
            forall|c: u32| final(registry).contains_id(c) == old(registry).contains_id(c),
            forall|i: int|
                0 <= i < old(registry)@.len() ==> final(registry)@[i] == (ClientView {
                    outbound: enqueue_spec(old(registry)@[i].outbound, message@),
                    ..old(registry)@[i]
                }),
            forall|c: u32|
                old(registry).contains_id(c) ==> #[trigger] final(registry).client_at(c)
                    == (ClientView {
                    outbound: enqueue_spec(old(registry).client_at(c).outbound, message@),
                    ..old(registry).client_at(c)
                }),
            r is Ok,
    {
        registry.broadcast(None, message);
        proof {
            assert forall|i: int| 0 <= i < old(registry)@.len() implies registry@[i] == (ClientView {
                outbound: enqueue_spec(old(registry)@[i].outbound, message@),
                ..old(registry)@[i]
            }) by {
                assert(registry@[i] == crate::registry::after_broadcast(
                    old(registry)@[i],
                    None,
                    message@,
                ));
            }
            assert forall|c: u32| old(registry).contains_id(c) implies #[trigger] registry.client_at(
                c,
            ) == (ClientView {
                outbound: enqueue_spec(old(registry).client_at(c).outbound, message@),
                ..old(registry).client_at(c)
            }) by {
                assert(registry.client_at(c) == crate::registry::after_broadcast(
                    old(registry).client_at(c),
                    None,
                    message@,
                ));
            }
        }
        Ok(())
    }
}

/// A client that carries a valid nickname no other client shares (up to
/// ASCII case) is found by nickname resolution, and the first match is that
/// client itself: once a rename succeeds, `/info <name>` and `/list` see it.
pub proof fn lemma_renamed_client_resolvable(reg: &ClientRegistry, id: u32, name: Seq<char>)
    requires
        reg.wf(),
        reg.contains_id(id),
        reg.nickname_of(id) == name,
        !reg.nickname_taken(name, id),
    ensures
        name_resolvable(reg@, name),
        first_ci_match(reg@, name) matches Some(ix) && reg@[ix].id == id,
{
    reg.lemma_client_at(id);
    let own = crate::registry::seq_index_of(reg@, id);
    assert(seq_eq_ci(reg@[own].nickname, name));
    lemma_first_ci_match(reg@, name, 0);
    if first_ci_match(reg@, name) is None {
        assert(!seq_eq_ci(reg@[own].nickname, name));
    }
    let ix = first_ci_match(reg@, name)->0;
    assert(seq_eq_ci(reg@[ix].nickname, name));
    if reg@[ix].id != id {
        assert(reg.nickname_taken(name, id));
    }
}

/// The registry after an error was reported: one `Error: ...` line offered
/// to the sender's queue, every other client untouched.
pub open spec fn reported_to_sender(
    pre: &ClientRegistry,
    post: &ClientRegistry,
    sender: u32,
    e: &ChatError,
) -> bool {
    crate::registry::only_sender_enqueued(pre, post, sender, "Error: "@ + e.spec_message() + "\n"@)
}

/// Queue one `Error: <message>` line for the sender.
fn report_error(registry: &mut ClientRegistry, sender: u32, e: &ChatError)
    requires
        old(registry).wf(),
    ensures
        final(registry).wf(),
        reported_to_sender(old(registry), final(registry), sender, &e),
{
    let mut line = String::from_str("Error: ");
    line.append(e.message().as_str());
    line.append("\n");
    let _ = registry.send_to(sender, line);
}

} // verus!
