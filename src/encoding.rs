use vstd::prelude::*;

verus! {

/// What base64 decoding (standard alphabet, with padding) gives for `s`.
pub uninterp spec fn base64_decoded(s: Seq<char>) -> Option<Seq<u8>>;

/// The text that the bytes `b` spell as UTF-8, if they are valid UTF-8.
pub uninterp spec fn utf8_text(b: Seq<u8>) -> Option<Seq<char>>;

/// A symbol of the standard base64 alphabet, or the padding symbol.
pub open spec fn is_base64_symbol(c: char) -> bool {
    ('A' <= c && c <= 'Z') || ('a' <= c && c <= 'z') || ('0' <= c && c <= '9') || c == '+' || c
        == '/' || c == '='
}

/// Every character of `s` may stand in a base64 token.
pub open spec fn all_base64_symbols(s: Seq<char>) -> bool {
    forall|i: int| 0 <= i < s.len() ==> is_base64_symbol(#[trigger] s[i])
}

/// The text that stands for `raw` after one decoding attempt: the decoded
/// text where `raw` is a base64 token of valid UTF-8, else `raw` itself.
pub open spec fn unwrapped(raw: Seq<char>) -> Seq<char> {
    if all_base64_symbols(raw) {
        match base64_decoded(raw) {
            Some(b) => match utf8_text(b) {
                Some(t) => t,
                None => raw,
            },
            None => raw,
        }
    } else {
        raw
    }
}

/// `e` is the non-empty base64 token of the text `s`.
pub open spec fn encodes(e: Seq<char>, s: Seq<char>) -> bool {
    &&& 0 < e.len()
    &&& all_base64_symbols(e)
    &&& exists|b: Seq<u8>| base64_decoded(e) == Some(b) && utf8_text(b) == Some(s)
}

/// Relies on base64::decode (standard alphabet): the bytes that `s` encodes,
/// or `None` where `s` is no valid token.
#[verifier::external_body]
fn decode_base64(s: &str) -> (r: Option<Vec<u8>>)
    ensures
        match r {
            Some(b) => base64_decoded(s@) == Some(b@),
            None => base64_decoded(s@) is None,
        },
{
    base64::decode(s).ok()
}

/// Relies on String::from_utf8: the text that `b` spells, or `None` where
/// `b` is not valid UTF-8.
#[verifier::external_body]
fn utf8_string(b: Vec<u8>) -> (r: Option<String>)
    ensures
        match r {
            Some(t) => utf8_text(b@) == Some(t@),
            None => utf8_text(b@) is None,
        },
{
    String::from_utf8(b).ok()
}

/// Whether every character of `s` is a base64 symbol.
pub fn is_base64_token(s: &str) -> (r: bool)
    ensures
        r == all_base64_symbols(s@),
{
    let n = s.unicode_len();
    let mut i: usize = 0;
    while i < n
        invariant
            n == s@.len(),
            i <= n,
            forall|j: int| 0 <= j < i ==> is_base64_symbol(#[trigger] s@[j]),
        decreases n - i,
    {
        let c = s.get_char(i);
        let ok = ('A' <= c && c <= 'Z') || ('a' <= c && c <= 'z') || ('0' <= c && c <= '9') || c
            == '+' || c == '/' || c == '=';
        if !ok {
            return false;
        }
        i = i + 1;
    }
    true
}

/// One decoding attempt on `raw`: the decoded text where `raw` is a base64
/// token of valid UTF-8, else `raw` unchanged. Never decodes twice.
pub fn unwrap_encoded(raw: &str) -> (r: String)
    ensures
        r@ == unwrapped(raw@),
{
    if !is_base64_token(raw) {
        return String::from_str(raw);
    }
    match decode_base64(raw) {
        Some(bytes) => match utf8_string(bytes) {
            Some(t) => t,
            None => String::from_str(raw),
        },
        None => String::from_str(raw),
    }
}

/// The base64 token of a text stands for that text.
pub proof fn lemma_unwrap_encoded(e: Seq<char>, s: Seq<char>)
    requires
        encodes(e, s),
    ensures
        unwrapped(e) == s,
{
}

} // verus!
