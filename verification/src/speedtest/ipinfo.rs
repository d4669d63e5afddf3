//! What an outside service says of the connection.

use vstd::prelude::*;

use crate::text::{
    holds, is_space, texts_hold_their_parts, trim, trimmed, trimming_takes_off_the_white_space,
};

verus! {

/// How long an answer is waited for.
pub const IPINFO_TIMEOUT_SECONDS: u64 = 4;

#[derive(Debug)]
pub struct IpInfo {
    pub country: Option<String>,
    pub city: Option<String>,
    pub ip: Option<String>,
    pub org: Option<String>,
}

/// The answer of the service.
#[derive(Debug)]
pub struct IpInfoPayload {
    pub country: Option<String>,
    pub city: Option<String>,
    pub ip: Option<String>,
    pub org: Option<String>,
}

/// Whether `cleaned` is the trimmed text, none where nothing is left of it.
pub open spec fn is_cleaned(value: Option<String>, cleaned: Option<String>) -> bool {
    match cleaned {
        Some(text) => value is Some && text@ == trimmed(value->0@) && text@.len() > 0,
        None => value is None || trimmed(value->0@).len() == 0,
    }
}

pub fn clean_optional(value: Option<String>) -> (r: Option<String>)
    ensures
        is_cleaned(value, r),
{
    match value {
        Some(raw) => {
            let text = trim(raw.as_str());
            if text.as_str().is_empty() {
                None
            } else {
                Some(text)
            }
        },
        None => None,
    }
}

pub fn map_payload(payload: IpInfoPayload) -> (r: IpInfo)
    ensures
        is_cleaned(payload.country, r.country),
        is_cleaned(payload.city, r.city),
        is_cleaned(payload.ip, r.ip),
        is_cleaned(payload.org, r.org),
{
    IpInfo {
        country: clean_optional(payload.country),
        city: clean_optional(payload.city),
        ip: clean_optional(payload.ip),
        org: clean_optional(payload.org),
    }
}

/// What is kept of a text is its part between the white space at its ends. Of a text without
/// anything else nothing is kept.
pub proof fn kept_texts_are_trimmed(value: Option<String>, kept: Option<String>)
    requires
        is_cleaned(value, kept),
    ensures
        kept matches Some(text) ==> {
            &&& value is Some
            &&& text@.len() > 0
            &&& !is_space(text@[0])
            &&& !is_space(text@.last())
            &&& holds(value->0@, text@)
        },
        kept is None && value is Some ==> forall|k: int|
            0 <= k < value->0@.len() ==> is_space(#[trigger] value->0@[k]),
{
    if value is Some {
        let places = trimming_takes_off_the_white_space(value->0@);
        texts_hold_their_parts(value->0@, Seq::empty(), places.0, places.1);
    }
}

/// What is missing stays missing.
pub proof fn missing_texts_stay_missing(kept: Option<String>)
    ensures
        is_cleaned(None, kept) <==> kept is None,
{
}

} // verus!
