//! Reading a service's reply to a request.

use vstd::prelude::*;

use crate::error::TranscriptionError;
use crate::text::{push_str_chars, string_from_chars};

verus! {

/// An error that a service's reply amounts to: `prefix` followed by `text`.
pub fn api_error(prefix: &str, text: &str) -> (r: TranscriptionError)
    ensures
        r matches TranscriptionError::ApiError(m) && m@ == prefix@ + text@,
{
    let mut m: Vec<char> = Vec::new();
    push_str_chars(&mut m, prefix);
    push_str_chars(&mut m, text);
    TranscriptionError::ApiError(string_from_chars(m.as_slice()))
}

/// A reply's content, or the error it amounts to. Where the status is not
/// a success the error is `failed` followed by the reply's text (`body`);
/// else where the body could not be read as expected it is `unreadable`
/// followed by the reader's complaint.
pub fn reply_content<T>(
    status_ok: bool,
    body: &str,
    parsed: Result<T, String>,
    failed: &str,
    unreadable: &str,
) -> (r: Result<T, TranscriptionError>)
    ensures
        !status_ok ==> (r matches Err(TranscriptionError::ApiError(m)) && m@ == failed@ + body@),
        status_ok ==> match parsed {
            Ok(v) => r matches Ok(w) && w == v,
            Err(e) => r matches Err(TranscriptionError::ApiError(m)) && m@ == unreadable@ + e@,
        },
{
    if !status_ok {
        return Err(api_error(failed, body));
    }
    match parsed {
        Ok(v) => Ok(v),
        Err(e) => Err(api_error(unreadable, e.as_str())),
    }
}

} // verus!
