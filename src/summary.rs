use vstd::prelude::*;

use crate::json::{
    element, json_element, json_member, json_parsed, json_quoted, json_string, member,
    parse_json, quote_json, string_of,
};
use crate::text::{all_white_space, is_trim_of, is_white_space, trim_text};

verus! {

/// Marks a summary made locally because the remote one failed.
pub const FALLBACK_PREFIX: &'static str = "Failed to summarize. File content preview: ";

/// How many characters of the content a fallback summary quotes.
pub const PREVIEW_CHARS: usize = 100;

/// The instruction put before the file content.
pub const PROMPT_PREFIX: &'static str = "Summarize the following code:\n\n";

/// The request body up to the model identifier.
pub const REQUEST_OPEN: &'static str = "{\"model\":";

/// The request body between the model identifier and the prompt string.
pub const REQUEST_MESSAGES: &'static str = ",\"messages\":[{\"role\":\"user\",\"content\":";

/// The request body after the prompt string.
pub const REQUEST_TAIL: &'static str = "}],\"max_tokens\":1000}";

/// Why a remote summary could not be had.
#[derive(Debug, PartialEq, Eq)]
pub enum SummaryError {
    /// The request could not be sent or its answer not read.
    Transport { message: String },
    /// The service answered with a non-success status.
    RemoteService { status: u16, body: String },
    /// The answer did not have the expected shape.
    MalformedResponse,
    /// The generated text was empty once trimmed.
    EmptySummary,
}

pub open spec fn preview_len_spec(len: nat) -> nat {
    if len < PREVIEW_CHARS {
        len
    } else {
        PREVIEW_CHARS as nat
    }
}

/// The fallback prefix followed by the first characters of the content.
pub open spec fn fallback_text(content: Seq<char>) -> Seq<char> {
    FALLBACK_PREFIX@ + content.take(preview_len_spec(content.len()) as int)
}

/// The summary that the index records for a content and the outcome of
/// summarizing it: the remote text, unless it failed or is empty.
pub open spec fn recorded_summary(content: Seq<char>, outcome: Result<String, SummaryError>) -> Seq<
    char,
> {
    match outcome {
        Ok(s) => if s@.len() > 0 {
            s@
        } else {
            fallback_text(content)
        },
        Err(_) => fallback_text(content),
    }
}

pub open spec fn prompt_text(content: Seq<char>) -> Seq<char> {
    PROMPT_PREFIX@ + content
}

/// The JSON request body that asks `model` for a summary of `content`.
pub open spec fn request_text(model: Seq<char>, content: Seq<char>) -> Seq<char> {
    REQUEST_OPEN@ + json_quoted(model) + REQUEST_MESSAGES@ + json_quoted(prompt_text(content))
        + REQUEST_TAIL@
}

pub open spec fn is_success_status(status: u16) -> bool {
    200 <= status <= 299
}

/// The string at `content[0].text` of a response body, if there is one.
pub open spec fn response_text(body: Seq<char>) -> Option<Seq<char>> {
    match json_parsed(body) {
        Some(v) => match json_member(v, "content"@) {
            Some(list) => match json_element(list, 0) {
                Some(first) => match json_member(first, "text"@) {
                    Some(t) => json_string(t),
                    None => None,
                },
                None => None,
            },
            None => None,
        },
        None => None,
    }
}

pub fn preview_len(len: usize) -> (r: usize)
    ensures
        r == preview_len_spec(len as nat),
{
    if len < PREVIEW_CHARS {
        len
    } else {
        PREVIEW_CHARS
    }
}

/// The summary made locally when the remote one fails.
pub fn fallback_summary(content: &str) -> (r: String)
    ensures
        r@ == fallback_text(content@),
        r@.len() > 0,
{
    let n = content.unicode_len();
    let head = content.substring_char(0, preview_len(n));
    let mut r = String::from_str(FALLBACK_PREFIX);
    r.append(head);
    proof {
        reveal_strlit("Failed to summarize. File content preview: ");
    }
    r
}

/// The summary recorded for a file: the remote one, or the fallback.
pub fn resolve_summary(content: &str, outcome: Result<String, SummaryError>) -> (r: String)
    ensures
        r@ == recorded_summary(content@, outcome),
        r@.len() > 0,
{
    match outcome {
        Ok(s) => {
            if s.unicode_len() > 0 {
                s
            } else {
                fallback_summary(content)
            }
        },
        Err(_) => fallback_summary(content),
    }
}

/// The request body that asks `model` for a summary of `content`.
pub fn request_body(model: &str, content: &str) -> (r: String)
    ensures
        r@ == request_text(model@, content@),
{
    let mut prompt = String::from_str(PROMPT_PREFIX);
    prompt.append(content);
    let quoted_model = match quote_json(model) {
        Some(q) => q,
        None => String::new(),
    };
    let quoted_prompt = match quote_json(prompt.as_str()) {
        Some(q) => q,
        None => String::new(),
    };
    let mut r = String::from_str(REQUEST_OPEN);
    r.append(quoted_model.as_str());
    r.append(REQUEST_MESSAGES);
    r.append(quoted_prompt.as_str());
    r.append(REQUEST_TAIL);
    r
}

pub fn status_is_success(status: u16) -> (r: bool)
    ensures
        r == is_success_status(status),
{
    200 <= status && status <= 299
}

/// Extracts the generated text from a JSON response body.
pub fn extract_response_text(body: &str) -> (r: Option<String>)
    ensures
        r matches Some(t) ==> response_text(body@) == Some(t@),
        r is None ==> response_text(body@) is None,
{
    let v = match parse_json(body) {
        Some(v) => v,
        None => return None,
    };
    let list = match member(&v, "content") {
        Some(l) => l,
        None => return None,
    };
    let first = match element(&list, 0) {
        Some(f) => f,
        None => return None,
    };
    let t = match member(&first, "text") {
        Some(t) => t,
        None => return None,
    };
    string_of(&t)
}

/// Interprets the status and body of the service's answer: the trimmed
/// generated text, or why there is none.
pub fn summary_from_response(status: u16, body: &str) -> (r: Result<String, SummaryError>)
    ensures
        !is_success_status(status) ==> (r matches Err(SummaryError::RemoteService { status: s, body: b })
            && s == status && b@ == body@),
        is_success_status(status) && response_text(body@) is None ==> r == Err::<
            String,
            SummaryError,
        >(SummaryError::MalformedResponse),
        response_text(body@) matches Some(t) ==> (is_success_status(status) && all_white_space(t)
            ==> r == Err::<String, SummaryError>(SummaryError::EmptySummary)),
        response_text(body@) matches Some(t) ==> (is_success_status(status) && !all_white_space(t)
            ==> (r matches Ok(s) && is_trim_of(s@, t) && s@.len() > 0)),
{
    if !status_is_success(status) {
        return Err(SummaryError::RemoteService { status, body: String::from_str(body) });
    }
    let text = match extract_response_text(body) {
        Some(t) => t,
        None => return Err(SummaryError::MalformedResponse),
    };
    let s = trim_text(text.as_str());
    proof {
        let i = choose|i: int, j: int|
            {
                &&& 0 <= i <= j <= text@.len()
                &&& s@ == #[trigger] text@.subrange(i, j)
                &&& forall|k: int| 0 <= k < i ==> is_white_space(#[trigger] text@[k])
                &&& forall|k: int| j <= k < text@.len() ==> is_white_space(#[trigger] text@[k])
                &&& i < j ==> !is_white_space(text@[i]) && !is_white_space(text@[j - 1])
            };
        let (i, j) = i;
        if i < j {
            assert(!is_white_space(text@[i]));
            assert(!all_white_space(text@));
        } else {
            assert forall|k: int| 0 <= k < text@.len() implies is_white_space(#[trigger] text@[k]) by {
                if k < i {
                } else {
                }
            }
        }
    }
    if s.unicode_len() == 0 {
        return Err(SummaryError::EmptySummary);
    }
    Ok(s)
}

} // verus!
