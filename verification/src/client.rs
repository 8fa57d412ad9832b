use vstd::prelude::*;

use crate::message::{ApiError, ChatRequest, Message};
use crate::text::{from_chars, to_chars};

verus! {

/// `s` without the slashes at its end.
pub open spec fn trim_trailing_slashes(s: Seq<char>) -> Seq<char>
    decreases s.len(),
{
    if s.len() > 0 && s.last() == '/' {
        trim_trailing_slashes(s.drop_last())
    } else {
        s
    }
}

/// The address of the chat completions endpoint of the server `base_url`.
pub open spec fn chat_url_spec(base_url: Seq<char>) -> Seq<char> {
    trim_trailing_slashes(base_url) + "/chat/completions"@
}

/// The address of the chat completions endpoint of the server `base_url`.
pub fn chat_url(base_url: &str) -> (r: String)
    ensures
        r@ == chat_url_spec(base_url@),
{
    let v = to_chars(base_url);
    let mut end = v.len();
    assert(v@.take(v@.len() as int) =~= v@);
    while end > 0 && v[end - 1] == '/'
        invariant
            end <= v@.len(),
            trim_trailing_slashes(v@) == trim_trailing_slashes(v@.take(end as int)),
        decreases end,
    {
        assert(v@.take(end as int).drop_last() =~= v@.take(end - 1));
        end = end - 1;
    }
    assert(v@.subrange(0, end as int) =~= v@.take(end as int));
    let mut r = from_chars(&v.as_slice()[0..end]);
    r.append("/chat/completions");
    r
}

/// The value of the authorization header for the key `api_key`.
pub fn bearer(api_key: &str) -> (r: String)
    ensures
        r@ == "Bearer "@ + api_key@,
{
    let mut r = String::new();
    r.append("Bearer ");
    r.append(api_key);
    r
}

/// The request for a chat with `model` about `messages`, not streamed.
pub fn chat_request(model: &str, messages: Vec<Message>) -> (r: ChatRequest)
    ensures
        r.model@ == model@,
        r.messages@ == messages@,
        r.stream is None,
{
    ChatRequest { model: model.to_owned(), messages, stream: None }
}

/// What a chat answer gives: an error status with its body; the body when it
/// could not be read (`parsed` is the reading's error); the first choice's
/// text; or, with no choice, an error saying so with the body.
pub fn interpret_response(
    success: bool,
    status: u16,
    body: String,
    parsed: Result<Vec<String>, String>,
) -> (r: Result<String, ApiError>)
    ensures
        !success ==> (r matches Err(ApiError::Status(code, b)) && code == status && b@ == body@),
        success ==> match parsed {
            Err(e) => r matches Err(ApiError::Parse(m, raw)) && m@ == e@ && raw@ == body@,
            Ok(choices) => if choices@.len() > 0 {
                r matches Ok(t) && t@ == choices@[0]@
            } else {
                r matches Err(ApiError::Parse(m, raw)) && m@ == "empty choices"@ && raw@ == body@
            },
        },
{
    if !success {
        return Err(ApiError::Status(status, body));
    }
    match parsed {
        Err(e) => Err(ApiError::Parse(e, body)),
        Ok(choices) => {
            if choices.len() > 0 {
                Ok(choices[0].clone())
            } else {
                Err(ApiError::Parse("empty choices".to_owned(), body))
            }
        },
    }
}

/// A slash at the end of the server address makes no difference to where chats are sent.
pub proof fn lemma_trailing_slash_ignored(base_url: Seq<char>)
    ensures
        chat_url_spec(base_url.push('/')) == chat_url_spec(base_url),
{
    assert(base_url.push('/').drop_last() =~= base_url);
}

} // verus!
