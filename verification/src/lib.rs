//! A chat-room bot core: assembles a conversation context from a room's
//! message history and routes it to one of several configured LLM backends.
//!
//! The modules hold the verified logic; all I/O (the chat protocol client,
//! subprocess and HTTP transports) lives outside and hands this library
//! plain values.

pub mod aichat;
pub mod backends;
pub mod commands;
pub mod config;
pub mod context;
pub mod defaults;
pub mod openai;
pub mod rate_limit;
pub mod role;
pub mod summary;
pub mod tags;
pub mod text;

use vstd::prelude::*;

verus! {

/// A line is a bot command when it starts with the command marker and the
/// marker is not doubled; a doubled marker escapes the line as literal text.
pub open spec fn spec_is_marked(marker: char, text: Seq<char>) -> bool {
    &&& text.len() >= 1
    &&& text[0] == marker
    &&& !(text.len() >= 2 && text[1] == marker)
}

/// Whether `text` is a command for a bot whose command marker is `marker`.
pub fn is_marked_command(marker: char, text: &str) -> (r: bool)
    ensures
        r == spec_is_marked(marker, text@),
{
    let n: usize = text.unicode_len();
    if n == 0 {
        return false;
    }
    if text.get_char(0) != marker {
        return false;
    }
    if n >= 2 && text.get_char(1) == marker {
        return false;
    }
    true
}

/// Whether `text` is a command line: it starts with `.` and the dot is not
/// doubled (a doubled dot marks literal text).
pub fn is_command(text: &str) -> (r: bool)
    ensures
        r == spec_is_marked('.', text@),
{
    is_marked_command('.', text)
}

} // verus!
