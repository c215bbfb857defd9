//! Handlers of the `_player` datum.
use vstd::prelude::*;
use crate::text::str_equal;

verus! {

/// Handlers called on the `_player` datum.
pub struct PlayerDatumHandlers {}

/// Kinds of script error these handlers raise.
#[derive(Debug, Clone, Copy, PartialEq, Eq, Structural)]
pub enum ScriptErrorCode {
    /// No handler of that name exists.
    HandlerNotFound,
    /// A plain script error, known by its message alone.
    Generic,
}

/// A script error: its kind and its message.
#[derive(Debug)]
pub struct ScriptError {
    pub code: ScriptErrorCode,
    pub message: String,
}

/// What a successful call produces.
#[derive(Debug, Clone, Copy, PartialEq, Eq, Structural)]
pub enum PlayerDatumResult {
    /// An integer datum.
    Int(i32),
    /// The call is the `cursor` handler shared by all datum types, which the
    /// runtime runs with the same arguments.
    Cursor,
}

/// Message for a handler the `_player` datum does not have.
pub open spec fn handler_not_found_message(name: Seq<char>) -> Seq<char> {
    "No handler "@ + name + " for player datum"@
}

/// Message for a `count` of something other than `windowList`.
pub open spec fn invalid_count_message(subject: Seq<char>) -> Seq<char> {
    "Invalid call _player.count("@ + subject + ")"@
}

/// What `_player.count(subject)` answers: 0 windows, for `windowList` only.
pub open spec fn count_spec(subject: Seq<char>) -> Result<i32, Seq<char>> {
    if subject == "windowList"@ {
        Ok(0)
    } else {
        Err(invalid_count_message(subject))
    }
}

impl PlayerDatumHandlers {
    /// Calls handler `handler_name` on `_player`. `first_arg` is the text of
    /// the first argument, which `count` needs.
    pub fn call(handler_name: &str, first_arg: Option<&str>) -> (r: Result<
        PlayerDatumResult,
        ScriptError,
    >)
        requires
            handler_name@ == "count"@ ==> first_arg is Some,
        ensures
            handler_name@ == "count"@ ==> match count_spec(first_arg.unwrap()@) {
                Ok(n) => r matches Ok(PlayerDatumResult::Int(m)) && m == n,
                Err(msg) => r matches Err(e) && e.code == ScriptErrorCode::Generic
                    && e.message@ == msg,
            },
            handler_name@ == "cursor"@ ==> r matches Ok(PlayerDatumResult::Cursor),
            handler_name@ != "count"@ && handler_name@ != "cursor"@ ==> (r matches Err(e)
                && e.code == ScriptErrorCode::HandlerNotFound && e.message@
                == handler_not_found_message(handler_name@)),
    {
        proof {
            reveal_strlit("count");
            reveal_strlit("cursor");
            assert("count"@.len() != "cursor"@.len());
        }
        if str_equal(handler_name, "count") {
            match Self::count(first_arg.unwrap()) {
                Ok(n) => Ok(PlayerDatumResult::Int(n)),
                Err(e) => Err(e),
            }
        } else if str_equal(handler_name, "cursor") {
            Ok(PlayerDatumResult::Cursor)
        } else {
            let mut message = String::from_str("No handler ");
            message.append(handler_name);
            message.append(" for player datum");
            Err(ScriptError { code: ScriptErrorCode::HandlerNotFound, message })
        }
    }

    /// `_player.count(subject)`.
    pub fn count(subject: &str) -> (r: Result<i32, ScriptError>)
        ensures
            match count_spec(subject@) {
                Ok(n) => r == Ok::<i32, ScriptError>(n),
                Err(msg) => r matches Err(e) && e.code == ScriptErrorCode::Generic
                    && e.message@ == msg,
            },
    {
        if str_equal(subject, "windowList") {
            Ok(0)
        } else {
            let mut message = String::from_str("Invalid call _player.count(");
            message.append(subject);
            message.append(")");
            Err(ScriptError { code: ScriptErrorCode::Generic, message })
        }
    }
}

} // verus!
