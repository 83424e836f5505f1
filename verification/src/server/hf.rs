//! Searching a model hub.
use vstd::prelude::*;

use crate::server::error::{Refusal, ServerError};
use crate::text::{concat, concat3, decimal, decimal_string, hex, trim, trimmed};

verus! {

/// What to search for, and how many models to return at most.
pub struct HfSearchParams {
    pub q: String,
    pub limit: usize,
}

/// The models that were found.
pub struct HfSearchResponse {
    pub models: Vec<HfModelInfo>,
}

/// A model on the hub.
pub struct HfModelInfo {
    pub id: String,
    pub author: Option<String>,
    pub downloads: u64,
    pub likes: u64,
    pub tags: Vec<String>,
    pub pipeline_tag: Option<String>,
    pub last_modified: Option<String>,
}

/// What came of asking the hub.
pub enum HfReply {
    /// The client could not be made.
    NoClient(String),
    /// The request could not be sent.
    NotSent(String),
    /// The hub answered with another status than success.
    Status(String),
    /// The hub's answer could not be read.
    Unreadable(String),
    /// The hub's models.
    Models(Vec<HfModelInfo>),
}

/// How many models are returned if the request does not say.
pub fn default_limit() -> (r: usize)
    ensures
        r == 20,
{
    20
}

/// A byte that stands for itself in a URL.
pub open spec fn unreserved(b: u8) -> bool {
    ||| 0x30 <= b <= 0x39
    ||| 0x41 <= b <= 0x5A
    ||| 0x61 <= b <= 0x7A
    ||| b == 0x2D
    ||| b == 0x2E
    ||| b == 0x5F
    ||| b == 0x7E
}

/// The bytes with each one that does not stand for itself written as a percent
/// sign and two hexadecimal digits.
pub open spec fn percent_encoded(bytes: Seq<u8>) -> Seq<char>
    decreases bytes.len(),
{
    if bytes.len() == 0 {
        Seq::empty()
    } else {
        percent_encoded(bytes.drop_last()) + if unreserved(bytes.last()) {
            seq![bytes.last() as char]
        } else {
            seq!['%'] + hex(bytes.last() as nat, 2)
        }
    }
}

/// `urlencoding::encode`: every byte of the text's UTF-8 form but letters,
/// digits, `-`, `_`, `.` and `~` becomes a percent sign and two hexadecimal
/// digits in capitals.
#[verifier::external_body]
fn url_encode(s: &str) -> (r: String)
    ensures
        r@ == percent_encoded(vstd::utf8::encode_utf8(s@)),
{
    urlencoding::encode(s).into_owned()
}

/// The address of a search.
pub open spec fn search_url(q: Seq<char>, limit: nat) -> Seq<char> {
    "https://huggingface.co/api/models?search="@ + percent_encoded(vstd::utf8::encode_utf8(q))
        + "&filter=text-generation&sort=downloads&direction=-1&limit="@ + decimal(
        if limit <= 50 {
            limit
        } else {
            50
        },
    )
}

/// The address to ask the hub at; nothing if there is nothing to search for.
pub fn hf_search_url(params: &HfSearchParams) -> (r: Option<String>)
    ensures
        match r {
            None => trimmed(params.q@).len() == 0,
            Some(url) => trimmed(params.q@).len() > 0 && url@ == search_url(
                params.q@,
                params.limit as nat,
            ),
        },
{
    let text = trim(params.q.as_str());
    if text.as_str().unicode_len() == 0 {
        return None;
    }
    let limit: usize = if params.limit <= 50 {
        params.limit
    } else {
        50
    };
    let encoded = url_encode(params.q.as_str());
    let head = concat3(
        "https://huggingface.co/api/models?search=",
        encoded.as_str(),
        "&filter=text-generation&sort=downloads&direction=-1&limit=",
    );
    let number = decimal_string(limit as u64);
    Some(concat(head.as_str(), number.as_str()))
}

/// A question to the hub.
#[derive(Debug)]
pub struct HfRequest {
    pub url: String,
    /// How long an answer is waited for.
    pub timeout_secs: u64,
    /// How the server names itself.
    pub user_agent: &'static str,
}

/// The question to the hub; none if there is nothing to search for.
pub fn hf_request(params: &HfSearchParams) -> (r: Option<HfRequest>)
    ensures
        match r {
            None => trimmed(params.q@).len() == 0,
            Some(q) => {
                &&& trimmed(params.q@).len() > 0
                &&& q.url@ == search_url(params.q@, params.limit as nat)
                &&& q.timeout_secs == 10
                &&& q.user_agent@ == "larql-server"@
            },
        },
{
    match hf_search_url(params) {
        Some(url) => Some(HfRequest { url, timeout_secs: 10, user_agent: "larql-server" }),
        None => None,
    }
}

/// What is said of a reply without models.
pub open spec fn reply_error(reply: HfReply) -> Option<Seq<char>> {
    match reply {
        HfReply::NoClient(e) => Some("http client error: "@ + e@),
        HfReply::NotSent(e) => Some("HF API request failed: "@ + e@),
        HfReply::Status(s) => Some("HF API returned status "@ + s@),
        HfReply::Unreadable(e) => Some("HF API parse error: "@ + e@),
        HfReply::Models(_) => None,
    }
}

/// Answers a search, given the hub's reply; without one, if there was nothing
/// to search for.
pub fn handle_hf_search(reply: Option<HfReply>) -> (r: Result<HfSearchResponse, ServerError>)
    ensures
        match reply {
            None => r matches Ok(a) && a.models@.len() == 0,
            Some(HfReply::Models(models)) => r matches Ok(a) && a.models == models,
            Some(other) => r matches Err(e) && reply_error(other) is Some && e@
                == Refusal::Internal(reply_error(other)->0),
        },
{
    match reply {
        None => Ok(HfSearchResponse { models: Vec::new() }),
        Some(HfReply::Models(models)) => Ok(HfSearchResponse { models }),
        Some(HfReply::NoClient(e)) => Err(
            ServerError::Internal(concat("http client error: ", e.as_str())),
        ),
        Some(HfReply::NotSent(e)) => Err(
            ServerError::Internal(concat("HF API request failed: ", e.as_str())),
        ),
        Some(HfReply::Status(s)) => Err(
            ServerError::Internal(concat("HF API returned status ", s.as_str())),
        ),
        Some(HfReply::Unreadable(e)) => Err(
            ServerError::Internal(concat("HF API parse error: ", e.as_str())),
        ),
    }
}

} // verus!
