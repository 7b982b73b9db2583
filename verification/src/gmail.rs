//! The Gmail draft and message records, and the header/body extraction
//! logic over them. The HTTP calls that fill these records live at the
//! edge; the extraction — case-folded header lookup and base64 body
//! decoding — is verified, with the folding and decoding behind trusted
//! wrappers.

use vstd::prelude::*;

use vstd::utf8::{decode_utf8, valid_utf8};

use crate::unicode::{lower_of, lowercase};
use crate::text::str_eq;

verus! {

pub struct GmailDraft {
    pub id: String,
    /// A list response may omit the full message.
    pub message: Option<GmailMessage>,
    pub snippet: Option<String>,
}

pub struct GmailMessage {
    pub id: String,
    /// Can be empty in some responses.
    pub thread_id: String,
    pub label_ids: Vec<String>,
    pub snippet: Option<String>,
    pub payload: Option<GmailMessagePart>,
    pub size_estimate: Option<u64>,
    pub history_id: Option<String>,
    pub internal_date: Option<String>,
}

pub struct GmailMessagePart {
    pub part_id: Option<String>,
    pub mime_type: Option<String>,
    pub filename: Option<String>,
    pub headers: Vec<GmailHeader>,
    pub body: Option<GmailMessageBody>,
    pub parts: Option<Vec<GmailMessagePart>>,
}

pub struct GmailHeader {
    pub name: String,
    pub value: String,
}

pub struct GmailMessageBody {
    pub attachment_id: Option<String>,
    pub size: Option<u32>,
    /// Base64 (URL-safe, unpadded) encoded content.
    pub data: Option<String>,
}

/// One entry of a draft list response.
pub struct GmailDraftListItem {
    pub id: String,
    pub message: GmailDraftMessageRef,
}

/// The reduced message reference a draft list carries.
pub struct GmailDraftMessageRef {
    pub id: String,
    pub thread_id: String,
}

pub struct GmailDraftListResponse {
    pub drafts: Vec<GmailDraftListItem>,
    pub next_page_token: Option<String>,
    pub result_size_estimate: Option<u32>,
}

pub struct SendEmailRequest {
    pub to: String,
    pub subject: String,
    pub body: String,
    /// Set when replying to an email.
    pub reply_to_message_id: Option<String>,
    pub thread_id: Option<String>,
}

pub struct SendEmailResponse {
    pub id: String,
    pub thread_id: String,
    pub label_ids: Vec<String>,
}

/// The bytes the URL-safe, unpadded base64 decoding of a text yields, or
/// nothing when the text is not valid base64: a function of the text
/// alone.
pub uninterp spec fn b64url_decode_of(s: Seq<char>) -> Option<Seq<u8>>;

/// Relies on base64's `Engine::decode` with the URL-safe, unpadded
/// alphabet: the result is a function of the input text alone; the error
/// is collapsed to `None`.
#[verifier::external_body]
fn decode_base64url(s: &str) -> (r: Option<Vec<u8>>)
    ensures
        match r {
            Some(b) => b64url_decode_of(s@) == Some(b@),
            None => b64url_decode_of(s@) is None,
        },
{
    match base64::Engine::decode(&base64::engine::general_purpose::URL_SAFE_NO_PAD, s) {
        Ok(v) => Some(v),
        Err(_) => None,
    }
}

/// Relies on `String::from_utf8`, whose documentation promises success
/// exactly on valid UTF-8 with the decoded content returned; validity and
/// decoding are vstd's UTF-8 specification.
#[verifier::external_body]
fn utf8_string(bytes: Vec<u8>) -> (r: Option<String>)
    ensures
        match r {
            Some(t) => valid_utf8(bytes@) && t@ == decode_utf8(bytes@),
            None => !valid_utf8(bytes@),
        },
{
    match String::from_utf8(bytes) {
        Ok(t) => Some(t),
        Err(_) => None,
    }
}

/// The value of the first header whose case-folded name reads `key`.
pub open spec fn first_header_value(headers: Seq<GmailHeader>, key: Seq<char>) -> Option<Seq<char>>
    decreases headers.len(),
{
    if headers.len() == 0 {
        Option::None
    } else if lower_of(headers[0].name@) == key {
        Option::Some(headers[0].value@)
    } else {
        first_header_value(headers.drop_first(), key)
    }
}

/// The value of the first matching header of a draft's payload, if the
/// draft carries a full message with one.
pub open spec fn draft_header_value(draft: GmailDraft, key: Seq<char>) -> Option<Seq<char>> {
    match draft.message {
        Option::Some(m) => match m.payload {
            Option::Some(p) => first_header_value(p.headers@, key),
            Option::None => Option::None,
        },
        Option::None => Option::None,
    }
}

/// The decoded text of a message body: its base64 data decoded and read
/// as UTF-8, when both steps go through.
pub open spec fn body_text(b: Option<GmailMessageBody>) -> Option<Seq<char>> {
    match b {
        Option::Some(body) => match body.data {
            Option::Some(d) => match b64url_decode_of(d@) {
                Option::Some(bytes) => if valid_utf8(bytes) {
                    Option::Some(decode_utf8(bytes))
                } else {
                    Option::None
                },
                Option::None => Option::None,
            },
            Option::None => Option::None,
        },
        Option::None => Option::None,
    }
}

/// The first decodable body among a part list.
pub open spec fn first_part_text(parts: Seq<GmailMessagePart>) -> Option<Seq<char>>
    decreases parts.len(),
{
    if parts.len() == 0 {
        Option::None
    } else if body_text(parts[0].body) is Some {
        body_text(parts[0].body)
    } else {
        first_part_text(parts.drop_first())
    }
}

/// The text a draft's body extraction yields: the main payload body
/// first, then the first decodable part.
pub open spec fn draft_body_text(draft: GmailDraft) -> Option<Seq<char>> {
    match draft.message {
        Option::Some(m) => match m.payload {
            Option::Some(p) => match body_text(p.body) {
                Option::Some(t) => Option::Some(t),
                Option::None => match p.parts {
                    Option::Some(ps) => first_part_text(ps@),
                    Option::None => Option::None,
                },
            },
            Option::None => Option::None,
        },
        Option::None => Option::None,
    }
}

pub struct GmailService;

impl GmailService {
    /// Find a header by case-folded key among a payload's headers.
    fn header_value(headers: &Vec<GmailHeader>, key: &str) -> (r: Option<String>)
        ensures
            match r {
                Some(v) => first_header_value(headers@, key@) == Some(v@),
                None => first_header_value(headers@, key@) is None,
            },
    {
        proof {
            assert(headers@.skip(0) =~= headers@);
        }
        let mut i: usize = 0;
        while i < headers.len()
            invariant
                0 <= i <= headers@.len(),
                first_header_value(headers@, key@) == first_header_value(
                    headers@.skip(i as int),
                    key@,
                ),
            decreases headers@.len() - i,
        {
            let folded = lowercase(headers[i].name.as_str());
            proof {
                assert(headers@.skip(i as int)[0] == headers@[i as int]);
            }
            if str_eq(folded.as_str(), key) {
                let v = headers[i].value.clone();
                return Some(v);
            }
            proof {
                assert(headers@.skip(i as int).drop_first() =~= headers@.skip(i + 1));
            }
            i = i + 1;
        }
        proof {
            assert(headers@.skip(headers@.len() as int).len() == 0);
        }
        None
    }

    /// The address a draft is directed to: the value of its first `to`
    /// header, after case folding the header names.
    pub fn extract_to_from_draft(draft: &GmailDraft) -> (r: Option<String>)
        ensures
            match r {
                Some(v) => draft_header_value(*draft, lower_of("To"@)) == Some(v@),
                None => draft_header_value(*draft, lower_of("To"@)) is None,
            },
    {
        let key = lowercase("To");
        match &draft.message {
            Some(m) => match &m.payload {
                Some(p) => Self::header_value(&p.headers, key.as_str()),
                None => None,
            },
            None => None,
        }
    }

    /// The subject of a draft: the value of its first `subject` header,
    /// after case folding the header names.
    pub fn extract_subject_from_draft(draft: &GmailDraft) -> (r: Option<String>)
        ensures
            match r {
                Some(v) => draft_header_value(*draft, lower_of("Subject"@)) == Some(v@),
                None => draft_header_value(*draft, lower_of("Subject"@)) is None,
            },
    {
        let key = lowercase("Subject");
        match &draft.message {
            Some(m) => match &m.payload {
                Some(p) => Self::header_value(&p.headers, key.as_str()),
                None => None,
            },
            None => None,
        }
    }

    /// Decode one body's base64 data as UTF-8 text.
    fn body_string(b: &Option<GmailMessageBody>) -> (r: Option<String>)
        ensures
            match r {
                Some(t) => body_text(*b) == Some(t@),
                None => body_text(*b) is None,
            },
    {
        match b {
            Some(body) => match &body.data {
                Some(d) => match decode_base64url(d.as_str()) {
                    Some(bytes) => utf8_string(bytes),
                    None => None,
                },
                None => None,
            },
            None => None,
        }
    }

    /// The text content of a draft: the main payload body when it
    /// decodes, otherwise the first part that does.
    pub fn extract_body_from_draft(draft: &GmailDraft) -> (r: Option<String>)
        ensures
            match r {
                Some(t) => draft_body_text(*draft) == Some(t@),
                None => draft_body_text(*draft) is None,
            },
    {
        let m = match &draft.message {
            Some(m) => m,
            None => {
                return None;
            },
        };
        proof {
            assert(draft.message == Some(*m));
        }
        let p = match &m.payload {
            Some(p) => p,
            None => {
                return None;
            },
        };
        proof {
            assert(m.payload == Some(*p));
        }
        match Self::body_string(&p.body) {
            Some(t) => Some(t),
            None => {
                match &p.parts {
                    Some(parts) => {
                        proof {
                            assert(p.parts == Some(*parts));
                            assert(body_text(p.body) is None);
                            assert(draft_body_text(*draft) == first_part_text(parts@));
                            assert(parts@.skip(0) =~= parts@);
                        }
                        let mut i: usize = 0;
                        while i < parts.len()
                            invariant
                                0 <= i <= parts@.len(),
                                draft_body_text(*draft) == first_part_text(parts@),
                                first_part_text(parts@) == first_part_text(parts@.skip(i as int)),
                            decreases parts@.len() - i,
                        {
                            proof {
                                assert(parts@.skip(i as int)[0] == parts@[i as int]);
                            }
                            match Self::body_string(&parts[i].body) {
                                Some(t) => {
                                    proof {
                                        assert(body_text(parts@[i as int].body) == Some(t@));
                                        assert(first_part_text(parts@.skip(i as int)) == body_text(
                                            parts@[i as int].body,
                                        ));
                                    }
                                    return Some(t);
                                },
                                None => {},
                            }
                            proof {
                                assert(parts@.skip(i as int).drop_first() =~= parts@.skip(i + 1));
                            }
                            i = i + 1;
                        }
                        proof {
                            assert(parts@.skip(parts@.len() as int).len() == 0);
                        }
                        None
                    },
                    None => None,
                }
            },
        }
    }
}

} // verus!
