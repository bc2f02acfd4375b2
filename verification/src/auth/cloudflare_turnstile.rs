//! Cloudflare Turnstile: where the visitor's address comes from, what is posted to
//! Cloudflare, and the error codes it answers with.
use vstd::prelude::*;
use crate::error::VentError;
use crate::text::{owned, same_text};

verus! {

/// An error code in Cloudflare's answer.
#[derive(Clone, Copy, PartialEq, Eq, Structural, Debug)]
pub enum TurnstileError {
    MissingInputSecret,
    InvalidInputSecret,
    MissingInputResponse,
    InvalidInputResponse,
    InvalidWidgetID,
    InvalidParsedSecret,
    BadRequest,
    TimeoutOrDuplicate,
    InternalError,
}

/// The error a code in Cloudflare's answer is read as. The code
/// `"invalid-input-secret"` is read as `InvalidInputSecret`; no code is read as
/// `InvalidInputResponse`, whose name in the answer is that same code.
pub open spec fn turnstile_error_for(code: Seq<char>) -> Option<TurnstileError> {
    if code == "missing-input-secret"@ {
        Some(TurnstileError::MissingInputSecret)
    } else if code == "invalid-input-secret"@ {
        Some(TurnstileError::InvalidInputSecret)
    } else if code == "missing-input-response"@ {
        Some(TurnstileError::MissingInputResponse)
    } else if code == "invalid-widget-id"@ {
        Some(TurnstileError::InvalidWidgetID)
    } else if code == "missing-parsed-secret"@ {
        Some(TurnstileError::InvalidParsedSecret)
    } else if code == "bad-request"@ {
        Some(TurnstileError::BadRequest)
    } else if code == "timeout-or-duplicate"@ {
        Some(TurnstileError::TimeoutOrDuplicate)
    } else if code == "internal"@ {
        Some(TurnstileError::InternalError)
    } else {
        None
    }
}

/// No error code in Cloudflare's answer is read as `InvalidInputResponse`: its code is
/// the same as `InvalidInputSecret`'s, which is read first.
pub proof fn lemma_invalid_response_never_read(code: Seq<char>)
    ensures
        turnstile_error_for(code) != Some(TurnstileError::InvalidInputResponse),
{
}

impl TurnstileError {
    /// Reads an error code from Cloudflare's answer.
    pub fn from_code(code: &str) -> (r: Option<Self>)
        ensures
            r == turnstile_error_for(code@),
    {
        if same_text(code, "missing-input-secret") {
            Some(TurnstileError::MissingInputSecret)
        } else if same_text(code, "invalid-input-secret") {
            Some(TurnstileError::InvalidInputSecret)
        } else if same_text(code, "missing-input-response") {
            Some(TurnstileError::MissingInputResponse)
        } else if same_text(code, "invalid-widget-id") {
            Some(TurnstileError::InvalidWidgetID)
        } else if same_text(code, "missing-parsed-secret") {
            Some(TurnstileError::InvalidParsedSecret)
        } else if same_text(code, "bad-request") {
            Some(TurnstileError::BadRequest)
        } else if same_text(code, "timeout-or-duplicate") {
            Some(TurnstileError::TimeoutOrDuplicate)
        } else if same_text(code, "internal") {
            Some(TurnstileError::InternalError)
        } else {
            None
        }
    }
}

/// The names of the fields posted to Cloudflare, and of the content-type header.
#[derive(Clone, Copy, PartialEq, Eq, Structural, Debug)]
pub enum CommonHeaders {
    CloudflareSiteSecret,
    CloudflareTurnstileResponse,
    RemoteIP,
    ContentType,
}

/// The name written for a header or field.
pub open spec fn header_name(h: CommonHeaders) -> Seq<char> {
    match h {
        CommonHeaders::CloudflareSiteSecret => "secret"@,
        CommonHeaders::CloudflareTurnstileResponse => "response"@,
        CommonHeaders::RemoteIP => "remoteip"@,
        CommonHeaders::ContentType => "content-type"@,
    }
}

impl CommonHeaders {
    /// The name written for the header or field, as its `Display` writes it.
    pub fn as_str(self) -> (s: &'static str)
        ensures
            s@ == header_name(self),
    {
        match self {
            CommonHeaders::CloudflareSiteSecret => "secret",
            CommonHeaders::CloudflareTurnstileResponse => "response",
            CommonHeaders::RemoteIP => "remoteip",
            CommonHeaders::ContentType => "content-type",
        }
    }
}

/// The visitor's address for the Cloudflare check: `127.0.0.1` when the server runs
/// locally, otherwise the `CF-Connecting-IP` header, and an error without one.
pub fn remote_ip(is_local: bool, cf_connecting_ip: Option<String>) -> (r: Result<String, VentError>)
    ensures
        is_local ==> (r matches Ok(ip) && ip@ == "127.0.0.1"@),
        !is_local ==> match cf_connecting_ip {
            Some(h) => (r matches Ok(ip) && ip@ == h@),
            None => (r matches Err(VentError::MissingCFIP)),
        },
{
    if is_local {
        return Ok(owned("127.0.0.1"));
    }
    match cf_connecting_ip {
        Some(h) => Ok(h),
        None => Err(VentError::MissingCFIP),
    }
}

/// One field of a form.
pub struct FormField {
    pub name: String,
    pub value: String,
}

/// The form posted to Cloudflare to check a response: the site secret, the response
/// from the page, and the visitor's address.
pub fn turnstile_form(secret: &str, response: &str, remote_ip: &str) -> (fields: Vec<FormField>)
    ensures
        fields@.len() == 3,
        fields@[0].name@ == header_name(CommonHeaders::CloudflareSiteSecret) && fields@[0].value@ == secret@,
        fields@[1].name@ == header_name(CommonHeaders::CloudflareTurnstileResponse) && fields@[1].value@ == response@,
        fields@[2].name@ == header_name(CommonHeaders::RemoteIP) && fields@[2].value@ == remote_ip@,
{
    let mut fields: Vec<FormField> = Vec::new();
    fields.push(FormField { name: owned(CommonHeaders::CloudflareSiteSecret.as_str()), value: owned(secret) });
    fields.push(FormField { name: owned(CommonHeaders::CloudflareTurnstileResponse.as_str()), value: owned(response) });
    fields.push(FormField { name: owned(CommonHeaders::RemoteIP.as_str()), value: owned(remote_ip) });
    fields
}

} // verus!
