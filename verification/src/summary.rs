//! Chat summaries: the requests that ask a backend to summarize a
//! conversation for a room's name and topic, and the cleaning of what the
//! model answers.
//!
//! Models often wrap the requested summary in quotes or commentary, so the
//! first quoted span is preferred when one exists.

use vstd::prelude::*;

use crate::backends::{ChatRole, Message};
use crate::text::sep_run_len;

verus! {

/// Index of the first quote of `s`; the length of `s` when there is none.
pub open spec fn spec_first_quote(s: Seq<char>) -> int {
    sep_run_len(s, '"')
}

/// Index of the first quote after the first quote; meaningful only when a
/// first quote exists.
pub open spec fn spec_second_quote(s: Seq<char>) -> int {
    let i = spec_first_quote(s);
    i + 1 + sep_run_len(s.skip(i + 1), '"')
}

/// Whether `s` holds a quoted span: two quotes.
pub open spec fn spec_has_quoted_span(s: Seq<char>) -> bool {
    spec_first_quote(s) < s.len() && spec_second_quote(s) < s.len()
}

/// What stands between the first quote and the quote that closes it.
pub open spec fn spec_first_quoted(s: Seq<char>) -> Seq<char> {
    s.subrange(spec_first_quote(s) + 1, spec_second_quote(s))
}

/// Relies on regex::Regex::captures with the constant pattern
/// `"([^"]*)"` (always a valid pattern, so building it cannot fail): the
/// leftmost match starts at the first quote that a later quote closes, and
/// the capture is everything up to that next quote.
#[verifier::external_body]
fn first_quoted(s: &str) -> (r: Option<String>)
    ensures
        r is Some <==> spec_has_quoted_span(s@),
        r is Some ==> r->Some_0@ == spec_first_quoted(s@),
{
    let re = regex::Regex::new("\"([^\"]*)\"").unwrap();
    match re.captures(s) {
        Some(caps) => caps.get(1).map(|m| m.as_str().to_string()),
        None => None,
    }
}

/// The cleaned summary: the first quoted span when one exists, else the
/// whole response, truncated to the given number of characters.
pub open spec fn spec_clean_summary(s: Seq<char>, max_length: Option<int>) -> Seq<char> {
    let base = if spec_has_quoted_span(s) {
        spec_first_quoted(s)
    } else {
        s
    };
    match max_length {
        Some(m) => if m < base.len() {
            base.take(m)
        } else {
            base
        },
        None => base,
    }
}

/// Clean a model's summary response: models often return extra text, so the
/// first quoted span is taken when one exists; the result is truncated to
/// `max_length` characters when a limit is given.
pub fn clean_summary_response(response: &str, max_length: Option<usize>) -> (r: String)
    ensures
        r@ == spec_clean_summary(
            response@,
            match max_length {
                Some(m) => Some(m as int),
                None => None,
            },
        ),
{
    let base: String = match first_quoted(response) {
        Some(q) => q,
        None => String::from_str(response),
    };
    match max_length {
        Some(m) => {
            let n = base.as_str().unicode_len();
            if m < n {
                String::from_str(base.as_str().substring_char(0, m))
            } else {
                base
            }
        },
        None => base,
    }
}

/// The request appended to a conversation to ask for a room title.
pub fn title_request_message() -> (m: Message)
    ensures
        m.role == ChatRole::User,
        m.content@
            == "Summarize this conversation in less than 20 characters to use as the title of this conversation. The output should be a single line of text describing the conversation. Do not output anything except for the summary text. Only the first 20 characters will be used."@,
{
    Message::new(
        ChatRole::User,
        String::from_str(
            "Summarize this conversation in less than 20 characters to use as the title of this conversation. The output should be a single line of text describing the conversation. Do not output anything except for the summary text. Only the first 20 characters will be used.",
        ),
    )
}

/// The request appended to a conversation to ask for a room topic.
pub fn topic_request_message() -> (m: Message)
    ensures
        m.role == ChatRole::User,
        m.content@
            == "Summarize this conversation in less than 50 characters. Do not output anything except for the summary text. Do not include any commentary or context, only the summary."@,
{
    Message::new(
        ChatRole::User,
        String::from_str(
            "Summarize this conversation in less than 50 characters. Do not output anything except for the summary text. Do not include any commentary or context, only the summary.",
        ),
    )
}

} // verus!
