use vstd::prelude::*;
use crate::encoding::{all_base64_symbols, encodes, lemma_unwrap_encoded, unwrap_encoded, unwrapped};
use crate::error::TransferError;
use crate::text::same_text;

verus! {

/// A member value of a JSON object, as far as the record reads it.
#[derive(Debug, Clone)]
pub enum JsonMember {
    Null,
    Bool(bool),
    Text(String),
    /// A number, an array or an object.
    Other,
}

/// The members of the JSON object that `s` holds, in key order; `None`
/// where `s` is not valid JSON or its top-level value is no object.
pub uninterp spec fn json_object_of(s: Seq<char>) -> Option<Seq<(String, JsonMember)>>;

/// Relies on serde_json::from_str (into serde_json::Value): parses `text`,
/// keeping the members of a top-level object.
#[verifier::external_body]
fn parse_json_object(text: &str) -> (r: Option<Vec<(String, JsonMember)>>)
    ensures
        match r {
            Some(ms) => json_object_of(text@) == Some(ms@),
            None => json_object_of(text@) is None,
        },
{
    match serde_json::from_str::<serde_json::Value>(text) {
        Ok(serde_json::Value::Object(m)) => Some(m.into_iter().map(|(k, v)| (k, match v {
            serde_json::Value::Null => JsonMember::Null,
            serde_json::Value::Bool(b) => JsonMember::Bool(b),
            serde_json::Value::String(s) => JsonMember::Text(s),
            serde_json::Value::Number(_) => JsonMember::Other,
            serde_json::Value::Array(_) => JsonMember::Other,
            serde_json::Value::Object(_) => JsonMember::Other,
        })).collect()),
        _ => None,
    }
}

/// An object-storage destination.
#[derive(Debug, Clone)]
pub struct OssConfig {
    pub oss_bucket: String,
    pub oss_endpoint: String,
    pub key_secret: String,
    pub key_id: String,
    /// The key prefix of every uploaded object.
    pub destionation: String,
    /// Accepted and kept, but no upload consults it: every upload overwrites.
    pub override_existing: Option<bool>,
}

/// The fields of a record, in the order of `OssConfig`.
pub type RecordFields = (Seq<char>, Seq<char>, Seq<char>, Seq<char>, Seq<char>, Option<bool>);

impl OssConfig {
    pub open spec fn fields(&self) -> RecordFields {
        (
            self.oss_bucket@,
            self.oss_endpoint@,
            self.key_secret@,
            self.key_id@,
            self.destionation@,
            self.override_existing,
        )
    }
}

/// The value of the first member named `key`.
pub open spec fn member_of(ms: Seq<(String, JsonMember)>, key: Seq<char>) -> Option<JsonMember>
    decreases ms.len(),
{
    if ms.len() == 0 {
        None
    } else if ms[0].0@ == key {
        Some(ms[0].1)
    } else {
        member_of(ms.subrange(1, ms.len() as int), key)
    }
}

/// A required text member: its text, or `None` where absent or not a string.
pub open spec fn text_member(ms: Seq<(String, JsonMember)>, key: Seq<char>) -> Option<Seq<char>> {
    match member_of(ms, key) {
        Some(JsonMember::Text(s)) => Some(s@),
        _ => None,
    }
}

/// An optional flag: `Some(None)` where absent or null, `Some(Some(b))` for
/// a boolean, `None` for any other value.
pub open spec fn flag_member(ms: Seq<(String, JsonMember)>, key: Seq<char>) -> Option<Option<bool>> {
    match member_of(ms, key) {
        None => Some(None),
        Some(JsonMember::Null) => Some(None),
        Some(JsonMember::Bool(b)) => Some(Some(b)),
        _ => None,
    }
}

/// The record that the members spell, or `None` where a required field is
/// missing or any field has the wrong type.
pub open spec fn record_of(ms: Seq<(String, JsonMember)>) -> Option<RecordFields> {
    match (
        text_member(ms, "oss_bucket"@),
        text_member(ms, "oss_endpoint"@),
        text_member(ms, "key_secret"@),
        text_member(ms, "key_id"@),
        text_member(ms, "destionation"@),
        flag_member(ms, "override_existing"@),
    ) {
        (Some(b), Some(e), Some(s), Some(i), Some(d), Some(o)) => Some((b, e, s, i, d, o)),
        _ => None,
    }
}

/// What resolving `raw` as an object-storage record gives.
pub open spec fn oss_target(raw: Seq<char>) -> Option<RecordFields> {
    if raw.len() == 0 {
        None
    } else {
        match json_object_of(unwrapped(raw)) {
            Some(ms) => record_of(ms),
            None => None,
        }
    }
}

/// The value of the first member named `key`.
pub fn find_member<'a>(ms: &'a Vec<(String, JsonMember)>, key: &str) -> (r: Option<&'a JsonMember>)
    ensures
        match r {
            Some(v) => member_of(ms@, key@) == Some(*v),
            None => member_of(ms@, key@) is None,
        },
{
    let mut i: usize = 0;
    assert(ms@.subrange(0, ms@.len() as int) =~= ms@);
    while i < ms.len()
        invariant
            i <= ms@.len(),
            member_of(ms@, key@) == member_of(ms@.subrange(i as int, ms@.len() as int), key@),
        decreases ms@.len() - i,
    {
        let rest = Ghost(ms@.subrange(i as int, ms@.len() as int));
        assert(rest@.subrange(1, rest@.len() as int) =~= ms@.subrange(i + 1, ms@.len() as int));
        assert(rest@[0] == ms@[i as int]);
        if same_text(ms[i].0.as_str(), key) {
            return Some(&ms[i].1);
        }
        i = i + 1;
    }
    None
}

fn text_field(ms: &Vec<(String, JsonMember)>, key: &str) -> (r: Result<String, TransferError>)
    ensures
        match text_member(ms@, key@) {
            Some(s) => r is Ok && r->Ok_0@ == s,
            None => r matches Err(TransferError::Serialization(_)),
        },
{
    match find_member(ms, key) {
        Some(JsonMember::Text(s)) => Ok(s.clone()),
        _ => Err(
            TransferError::Serialization(
                String::from_str("record field missing or not a string: ").concat(key),
            ),
        ),
    }
}

/// Builds the record from the members of a parsed JSON object. Every
/// required field must be a string; `override_existing` may be absent,
/// null or a boolean.
pub fn oss_config_from_members(ms: &Vec<(String, JsonMember)>) -> (r: Result<OssConfig, TransferError>)
    ensures
        match record_of(ms@) {
            Some(f) => r is Ok && r->Ok_0.fields() == f,
            None => r matches Err(TransferError::Serialization(_)),
        },
{
    let oss_bucket = text_field(ms, "oss_bucket")?;
    let oss_endpoint = text_field(ms, "oss_endpoint")?;
    let key_secret = text_field(ms, "key_secret")?;
    let key_id = text_field(ms, "key_id")?;
    let destionation = text_field(ms, "destionation")?;
    let override_existing = match find_member(ms, "override_existing") {
        None => None,
        Some(JsonMember::Null) => None,
        Some(JsonMember::Bool(b)) => Some(*b),
        Some(_) => {
            return Err(
                TransferError::Serialization(
                    String::from_str("record field override_existing is not a boolean"),
                ),
            );
        },
    };
    Ok(OssConfig { oss_bucket, oss_endpoint, key_secret, key_id, destionation, override_existing })
}

/// Resolves an object-storage record given as JSON text, literal or
/// base64-encoded.
pub fn parse_destiontion_oss(destination: &str) -> (r: Result<OssConfig, TransferError>)
    ensures
        destination@.len() == 0 ==> r matches Err(TransferError::Configuration(_)),
        destination@.len() > 0 ==> match json_object_of(unwrapped(destination@)) {
            Some(ms) => match record_of(ms) {
                Some(f) => r is Ok && r->Ok_0.fields() == f,
                None => r matches Err(TransferError::Serialization(_)),
            },
            None => r matches Err(TransferError::Serialization(_)),
        },
        r is Ok <==> oss_target(destination@) is Some,
        r is Ok ==> oss_target(destination@) == Some(r->Ok_0.fields()),
{
    if destination.unicode_len() == 0 {
        return Err(TransferError::Configuration(String::from_str("empty destination")));
    }
    let text = unwrap_encoded(destination);
    match parse_json_object(text.as_str()) {
        Some(ms) => oss_config_from_members(&ms),
        None => Err(
            TransferError::Serialization(String::from_str("destination is no JSON object")),
        ),
    }
}

/// A record without `oss_bucket` is refused.
pub proof fn lemma_record_needs_bucket(ms: Seq<(String, JsonMember)>)
    requires
        member_of(ms, "oss_bucket"@) is None,
    ensures
        record_of(ms) is None,
{
}

/// A record whose five required fields are strings and that leaves out
/// `override_existing` is accepted, with that field unset.
pub proof fn lemma_override_optional(ms: Seq<(String, JsonMember)>)
    requires
        text_member(ms, "oss_bucket"@) is Some,
        text_member(ms, "oss_endpoint"@) is Some,
        text_member(ms, "key_secret"@) is Some,
        text_member(ms, "key_id"@) is Some,
        text_member(ms, "destionation"@) is Some,
        member_of(ms, "override_existing"@) is None,
    ensures
        record_of(ms) matches Some((_, _, _, _, _, None)),
{
}

/// A record text that is no base64 token itself, and its base64 token,
/// resolve alike.
pub proof fn lemma_encoded_oss_target(e: Seq<char>, s: Seq<char>)
    requires
        encodes(e, s),
        oss_target(s) is Some,
        !all_base64_symbols(s),
    ensures
        oss_target(e) == oss_target(s),
{
    lemma_unwrap_encoded(e, s);
}

} // verus!
