use vstd::prelude::*;
use crate::encoding::{encodes, unwrap_encoded, unwrapped, all_base64_symbols, lemma_unwrap_encoded};
use crate::error::TransferError;
use crate::text::{split_exact, split_pair, sole_index};

verus! {

/// A remote host reached over an authenticated session.
#[derive(Debug, Clone)]
pub struct SshConfig {
    pub username: String,
    pub password: String,
    pub host: String,
    pub remote_root: String,
}

/// The four parts of `user:password@host:remote_root`: exactly one `@`,
/// and exactly one `:` on either side of it.
pub open spec fn stream_parts(s: Seq<char>) -> Option<(Seq<char>, Seq<char>, Seq<char>, Seq<char>)> {
    match split_pair(s, '@') {
        Some((cred, loc)) => match (split_pair(cred, ':'), split_pair(loc, ':')) {
            (Some((u, p)), Some((h, r))) => Some((u, p, h, r)),
            _ => None,
        },
        None => None,
    }
}

/// What resolving `raw` as a stream target gives: the four parts of the
/// (once decoded) text, or the failure.
pub open spec fn stream_target(raw: Seq<char>) -> Option<(Seq<char>, Seq<char>, Seq<char>, Seq<char>)> {
    if raw.len() == 0 {
        None
    } else {
        stream_parts(unwrapped(raw))
    }
}

impl SshConfig {
    pub open spec fn parts(&self) -> (Seq<char>, Seq<char>, Seq<char>, Seq<char>) {
        (self.username@, self.password@, self.host@, self.remote_root@)
    }
}

/// Resolves `user:password@host:remote_root`, literal or base64-encoded.
pub fn parse_destination_ssh(raw: &str) -> (r: Result<SshConfig, TransferError>)
    ensures
        match stream_target(raw@) {
            Some(p) => r is Ok && r->Ok_0.parts() == p,
            None => r matches Err(TransferError::Configuration(_)),
        },
{
    if raw.unicode_len() == 0 {
        return Err(TransferError::Configuration(String::from_str("empty destination")));
    }
    let text = unwrap_encoded(raw);
    let (cred, loc) = match split_exact(text.as_str(), '@') {
        Some(p) => p,
        None => {
            return Err(
                TransferError::Configuration(
                    String::from_str("destination needs exactly one '@': user:password@host:path"),
                ),
            );
        },
    };
    let (username, password) = match split_exact(cred.as_str(), ':') {
        Some(p) => p,
        None => {
            return Err(
                TransferError::Configuration(
                    String::from_str("credentials need exactly one ':': user:password"),
                ),
            );
        },
    };
    let (host, remote_root) = match split_exact(loc.as_str(), ':') {
        Some(p) => p,
        None => {
            return Err(
                TransferError::Configuration(
                    String::from_str("location needs exactly one ':': host:path"),
                ),
            );
        },
    };
    Ok(SshConfig { username, password, host, remote_root })
}

/// `u:p@h:r` resolves to its four parts whenever none of them holds `@`
/// or `:`; a text without exactly one `@` fails.
pub proof fn lemma_stream_grammar(u: Seq<char>, p: Seq<char>, h: Seq<char>, r: Seq<char>)
    requires
        forall|i: int| 0 <= i < u.len() ==> u[i] != '@' && u[i] != ':',
        forall|i: int| 0 <= i < p.len() ==> p[i] != '@' && p[i] != ':',
        forall|i: int| 0 <= i < h.len() ==> h[i] != '@' && h[i] != ':',
        forall|i: int| 0 <= i < r.len() ==> r[i] != '@' && r[i] != ':',
    ensures
        stream_parts(u + seq![':'] + p + seq!['@'] + h + seq![':'] + r) == Some((u, p, h, r)),
        stream_target(u + seq![':'] + p + seq!['@'] + h + seq![':'] + r) == Some((u, p, h, r)),
{
    let cred = u + seq![':'] + p;
    let loc = h + seq![':'] + r;
    let s = cred + seq!['@'] + loc;
    assert(u + seq![':'] + p + seq!['@'] + h + seq![':'] + r =~= s);
    assert(sole_index(s, '@', cred.len() as int));
    let k = choose|k: int| sole_index(s, '@', k);
    assert(s[cred.len() as int] == '@');
    assert(k == cred.len());
    assert(s.take(k) =~= cred);
    assert(s.skip(k + 1) =~= loc);
    assert(sole_index(cred, ':', u.len() as int));
    let a = choose|a: int| sole_index(cred, ':', a);
    assert(cred[u.len() as int] == ':');
    assert(a == u.len());
    assert(cred.take(a) =~= u);
    assert(cred.skip(a + 1) =~= p);
    assert(sole_index(loc, ':', h.len() as int));
    let b = choose|b: int| sole_index(loc, ':', b);
    assert(loc[h.len() as int] == ':');
    assert(b == h.len());
    assert(loc.take(b) =~= h);
    assert(loc.skip(b + 1) =~= r);
    assert(!crate::encoding::is_base64_symbol(s[cred.len() as int]));
}

/// Where the text before the `@`, or the text after it, does not hold
/// exactly one `:`, the text is no stream target.
pub proof fn lemma_stream_needs_one_colon(s: Seq<char>, cred: Seq<char>, loc: Seq<char>)
    requires
        split_pair(s, '@') == Some((cred, loc)),
        split_pair(cred, ':') is None || split_pair(loc, ':') is None,
    ensures
        stream_parts(s) is None,
{
}

/// A text with no `@`, or with more than one, is no stream target.
pub proof fn lemma_stream_needs_one_at(s: Seq<char>, i: int, j: int)
    requires
        (forall|k: int| 0 <= k < s.len() ==> s[k] != '@') || (0 <= i < j < s.len() && s[i] == '@'
            && s[j] == '@'),
    ensures
        stream_parts(s) is None,
{
    if exists|m: int| sole_index(s, '@', m) {
        let m = choose|m: int| sole_index(s, '@', m);
        assert(s[m] == '@');
    }
}

/// A valid stream destination and its base64 token resolve alike.
pub proof fn lemma_encoded_stream_target(e: Seq<char>, s: Seq<char>)
    requires
        encodes(e, s),
        stream_parts(s) is Some,
    ensures
        stream_target(e) == stream_target(s),
{
    let k = choose|k: int| sole_index(s, '@', k);
    assert(!crate::encoding::is_base64_symbol(s[k]));
    assert(!all_base64_symbols(s));
    lemma_unwrap_encoded(e, s);
}

} // verus!
