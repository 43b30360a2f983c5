//! The error taxonomy of the chat core, with the user-facing wording of each
//! error.

use vstd::prelude::*;
use vstd::string::StringExecFns;

use crate::text::{dec_digits, u64_string};

verus! {

/// Everything a command, a validation or an enqueue can report.
#[derive(Debug)]
pub enum ChatError {
    /// The target string is not a well-formed 32-bit user id.
    InvalidUserId(String),
    /// No registered client matches the target.
    UserNotFound(String),
    /// A nickname must not be empty.
    NicknameEmpty,
    /// A nickname must not exceed the length bound.
    NicknameTooLong { max: usize },
    /// A nickname may hold only letters, digits and underscores.
    NicknameInvalid(String),
    /// Another client already carries the nickname (up to ASCII case).
    NicknameAlreadyTaken(String),
    /// The recipient's outbound queue is full.
    MessageSendFailed,
    /// A middleware step rejected the message.
    ValidationFailed(String),
    /// The sender is muted.
    Muted,
    /// The target string is empty.
    TargetEmpty,
}

impl ChatError {
    /// The wording `message` returns for each error.
    pub open spec fn spec_message(&self) -> Seq<char> {
        match self {
            ChatError::InvalidUserId(id) => "Invalid user ID: "@ + id@,
            ChatError::UserNotFound(target) => "User '"@ + target@ + "' not found"@,
            ChatError::NicknameEmpty => "Nickname cannot be empty"@,
            ChatError::NicknameTooLong { max } => "Nickname too long (max "@ + dec_digits(
                *max as nat,
            ) + " chars)"@,
            ChatError::NicknameInvalid(reason) => "Invalid nickname: "@ + reason@,
            ChatError::NicknameAlreadyTaken(nickname) => "Nickname '"@ + nickname@
                + "' is already in use"@,
            ChatError::MessageSendFailed => "Failed to send message"@,
            ChatError::ValidationFailed(reason) => "Validation failed: "@ + reason@,
            ChatError::Muted => "You are muted and cannot send messages"@,
            ChatError::TargetEmpty => "Target cannot be empty"@,
        }
    }

    /// One human-readable line describing the error, without a terminator.
    pub fn message(&self) -> (r: String)
        ensures
            r@ == self.spec_message(),
    {
        match self {
            ChatError::InvalidUserId(id) => {
                let mut out = String::from_str("Invalid user ID: ");
                out.append(id.as_str());
                out
            },
            ChatError::UserNotFound(target) => {
                let mut out = String::from_str("User '");
                out.append(target.as_str());
                out.append("' not found");
                out
            },
            ChatError::NicknameEmpty => String::from_str("Nickname cannot be empty"),
            ChatError::NicknameTooLong { max } => {
                let mut out = String::from_str("Nickname too long (max ");
                let digits = u64_string(*max as u64);
                out.append(digits.as_str());
                out.append(" chars)");
                out
            },
            ChatError::NicknameInvalid(reason) => {
                let mut out = String::from_str("Invalid nickname: ");
                out.append(reason.as_str());
                out
            },
            ChatError::NicknameAlreadyTaken(nickname) => {
                let mut out = String::from_str("Nickname '");
                out.append(nickname.as_str());
                out.append("' is already in use");
                out
            },
            ChatError::MessageSendFailed => String::from_str("Failed to send message"),
            ChatError::ValidationFailed(reason) => {
                let mut out = String::from_str("Validation failed: ");
                out.append(reason.as_str());
                out
            },
            ChatError::Muted => String::from_str("You are muted and cannot send messages"),
            ChatError::TargetEmpty => String::from_str("Target cannot be empty"),
        }
    }
}

/// A successful result or a `ChatError`.
pub type ChatResult<T> = Result<T, ChatError>;

} // verus!
