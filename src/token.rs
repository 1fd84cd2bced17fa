//! Recognising and normalising bearer credentials.
//!
//! A credential is either composite, `<identity>::<signed-token>` (the separator
//! may be percent-encoded as `%3A%3A`, in either case), or a bare signed token
//! `header.payload.signature` whose payload names its subject.

use vstd::prelude::*;
use vstd::string::*;
use crate::codec::{
    decode_url_safe_padded, decode_url_safe_unpadded, json_member, json_string_member,
    url_safe_padded_decoding, url_safe_unpadded_decoding,
};
use crate::error::ExchangeError;
use crate::text::{
    chars_of, content_end, content_start, find_char, index_of, is_white_space, is_white_space_char,
    lemma_content_bounds, lemma_content_end_bounds, lemma_index_of_bounds, lemma_index_of_first, trim_text, trimmed,
};
use crate::types::{opt_view, TokenInfo};

verus! {

/// The literal separator of a composite credential.
pub open spec fn separator() -> Seq<char> {
    seq![':', ':']
}

/// `s` holds the literal separator `::` at position `i`.
pub open spec fn sep_at(s: Seq<char>, i: int) -> bool {
    0 <= i && i + 1 < s.len() && s[i] == ':' && s[i + 1] == ':'
}

pub open spec fn is_letter_a(c: char) -> bool {
    c == 'A' || c == 'a'
}

/// `s` holds the percent-encoded separator `%3A%3A`, in any case, at position `i`.
pub open spec fn encoded_sep_at(s: Seq<char>, i: int) -> bool {
    0 <= i && i + 5 < s.len() && s[i] == '%' && s[i + 1] == '3' && is_letter_a(s[i + 2]) && s[i
        + 3] == '%' && s[i + 4] == '3' && is_letter_a(s[i + 5])
}

pub open spec fn marks_composite(s: Seq<char>, i: int) -> bool {
    sep_at(s, i) || encoded_sep_at(s, i)
}

/// `s` is a composite credential: it holds the separator, literal or encoded.
pub open spec fn is_composite(s: Seq<char>) -> bool {
    exists|i: int| #[trigger] marks_composite(s, i)
}

/// `s` from position `i` on, with each encoded separator, read left to right,
/// replaced by `::`.
pub open spec fn decode_from(s: Seq<char>, i: int) -> Seq<char>
    decreases s.len() - i,
{
    if i < 0 || i >= s.len() {
        Seq::empty()
    } else if encoded_sep_at(s, i) {
        separator() + decode_from(s, i + 6)
    } else {
        seq![s[i]] + decode_from(s, i + 1)
    }
}

/// `s` with every encoded separator replaced by `::`.
pub open spec fn decode_separators(s: Seq<char>) -> Seq<char> {
    decode_from(s, 0)
}

/// The two forms of a bearer credential.
#[derive(Debug, Clone, Copy, PartialEq, Eq)]
pub enum CredentialForm {
    Composite,
    Bare,
}

fn sep_at_exec(v: &Vec<char>, i: usize) -> (r: bool)
    ensures
        r == sep_at(v@, i as int),
{
    i < v.len() && v.len() - i > 1 && v[i] == ':' && v[i + 1] == ':'
}

fn is_letter_a_exec(c: char) -> (r: bool)
    ensures
        r == is_letter_a(c),
{
    c == 'A' || c == 'a'
}

fn encoded_sep_at_exec(v: &Vec<char>, i: usize) -> (r: bool)
    ensures
        r == encoded_sep_at(v@, i as int),
{
    i < v.len() && v.len() - i > 5 && v[i] == '%' && v[i + 1] == '3' && is_letter_a_exec(v[i + 2])
        && v[i + 3] == '%' && v[i + 4] == '3' && is_letter_a_exec(v[i + 5])
}

/// Whether `token` is already a composite credential.
pub fn is_session_token(token: &str) -> (r: bool)
    ensures
        r == is_composite(token@),
{
    let v = chars_of(token);
    let mut i: usize = 0;
    while i < v.len()
        invariant
            i <= v@.len(),
            v@ == token@,
            forall|j: int| 0 <= j < i ==> !marks_composite(v@, j),
        decreases v@.len() - i,
    {
        if sep_at_exec(&v, i) || encoded_sep_at_exec(&v, i) {
            assert(marks_composite(v@, i as int));
            return true;
        }
        i = i + 1;
    }
    assert forall|j: int| !marks_composite(v@, j) by {
        if 0 <= j < i {
        }
    }
    false
}

/// The form of `token`: composite when it holds `::` or `%3A%3A` (in any case).
pub fn classify(token: &str) -> (r: CredentialForm)
    ensures
        r == (if is_composite(token@) {
            CredentialForm::Composite
        } else {
            CredentialForm::Bare
        }),
{
    if is_session_token(token) {
        CredentialForm::Composite
    } else {
        CredentialForm::Bare
    }
}

/// Any input that holds `::`, or `%3A%3A` with either letter in either case, is
/// classified as composite.
pub proof fn lemma_separator_makes_composite(s: Seq<char>, i: int)
    requires
        sep_at(s, i) || encoded_sep_at(s, i),
    ensures
        is_composite(s),
{
    assert(marks_composite(s, i));
}

/// `token` with every percent-encoded separator replaced by `::`.
pub fn decode_encoded_separators(token: &str) -> (r: String)
    ensures
        r@ == decode_separators(token@),
{
    let v = chars_of(token);
    let n = v.len();
    let mut out = String::new();
    let mut start: usize = 0;
    let mut i: usize = 0;
    proof {
        reveal_strlit("::");
    }
    while i < n
        invariant
            n == v@.len(),
            v@ == token@,
            start <= i <= n,
            "::"@ == separator(),
            out@ + token@.subrange(start as int, i as int) + decode_from(token@, i as int)
                == decode_from(token@, 0),
        decreases n - i,
    {
        if encoded_sep_at_exec(&v, i) {
            let chunk = token.substring_char(start, i);
            out.append(chunk);
            out.append("::");
            proof {
                assert(decode_from(token@, i as int) == separator() + decode_from(
                    token@,
                    i + 6,
                ));
                assert(token@.subrange(i + 6, i + 6) =~= Seq::<char>::empty());
                assert(out@ + token@.subrange(i + 6, i + 6) + decode_from(token@, i + 6)
                    =~= out@ + decode_from(token@, i + 6));
            }
            i = i + 6;
            start = i;
        } else {
            proof {
                let a = token@.subrange(start as int, i as int);
                assert(decode_from(token@, i as int) == seq![token@[i as int]] + decode_from(
                    token@,
                    i + 1,
                ));
                assert(token@.subrange(start as int, i + 1) =~= a + seq![token@[i as int]]);
                assert(out@ + a + (seq![token@[i as int]] + decode_from(token@, i + 1)) =~= out@
                    + (a + seq![token@[i as int]]) + decode_from(token@, i + 1));
            }
            i = i + 1;
        }
    }
    let rest = token.substring_char(start, n);
    out.append(rest);
    proof {
        assert(decode_from(token@, n as int) =~= Seq::<char>::empty());
        assert(out@ =~= decode_from(token@, 0));
    }
    out
}


/// The payload segment of a signed token: the text between its two dots, when
/// `t` has exactly three `.`-separated segments.
pub open spec fn jwt_payload(t: Seq<char>) -> Option<Seq<char>> {
    let i = index_of(t, '.', 0);
    let j = index_of(t, '.', i + 1);
    if i >= t.len() || j >= t.len() || index_of(t, '.', j + 1) < t.len() {
        None
    } else {
        Some(t.subrange(i + 1, j))
    }
}

/// How many `=` make a length of `n` a multiple of four.
pub open spec fn padding_len(n: nat) -> nat {
    if n % 4 == 0 {
        0
    } else {
        (4 - n % 4) as nat
    }
}

/// `p` followed by the `=` that bring its length to a multiple of four.
pub open spec fn with_padding(p: Seq<char>) -> Seq<char> {
    p + Seq::new(padding_len(p.len()), |_i: int| '=')
}

/// The bytes of a payload segment: decoded as unpadded URL-safe base64, or else
/// padded and decoded as padded URL-safe base64.
pub open spec fn decoded_payload(p: Seq<char>) -> Option<Seq<u8>> {
    match url_safe_unpadded_decoding(p) {
        Some(b) => Some(b),
        None => url_safe_padded_decoding(with_padding(p)),
    }
}

/// The identity that a subject claim names: what follows its first `|`, or the
/// whole claim when it has none.
pub open spec fn identity_of_subject(sub: Seq<char>) -> Seq<char> {
    let k = index_of(sub, '|', 0);
    if k < sub.len() {
        sub.subrange(k + 1, sub.len() as int)
    } else {
        sub
    }
}

/// The claim that names a signed token's subject: `"sub"`.
pub open spec fn subject_key() -> Seq<char> {
    seq!['s', 'u', 'b']
}

/// The identity that a bare signed token names, when its payload decodes and
/// carries a subject claim.
pub open spec fn jwt_identity(t: Seq<char>) -> Option<Seq<char>> {
    match jwt_payload(t) {
        None => None,
        Some(p) => match decoded_payload(p) {
            None => None,
            Some(b) => match json_member(b, subject_key()) {
                None => None,
                Some(sub) => Some(identity_of_subject(sub)),
            },
        },
    }
}

/// An identity that can head a composite credential and be read back from it: it
/// holds no separator, literal or encoded, does not end in `:` and does not start
/// with white space.
pub open spec fn composable_identity(id: Seq<char>) -> bool {
    &&& !is_composite(id)
    &&& !(id.len() > 0 && id.last() == ':')
    &&& !(id.len() > 0 && is_white_space(id[0]))
}

/// The composite form of `t`: `t` with its separators decoded when it is already
/// composite, else `identity::t`; `None` when `t` is bare and names no identity, or
/// one that could not be read back from the composite form.
pub open spec fn session_token_of(t: Seq<char>) -> Option<Seq<char>> {
    if is_composite(t) {
        Some(decode_separators(t))
    } else {
        match jwt_identity(t) {
            Some(id) => if composable_identity(id) {
                Some(id + separator() + t)
            } else {
                None
            },
            None => None,
        }
    }
}

fn payload_segment(token: &str) -> (r: Option<&str>)
    ensures
        match r {
            Some(p) => jwt_payload(token@) == Some(p@),
            None => jwt_payload(token@) is None,
        },
{
    let v = chars_of(token);
    let n = v.len();
    let i = find_char(&v, '.', 0);
    proof {
        lemma_index_of_bounds(v@, '.', 0);
    }
    if i >= n {
        return None;
    }
    let j = find_char(&v, '.', i + 1);
    proof {
        lemma_index_of_bounds(v@, '.', i + 1);
    }
    if j >= n {
        return None;
    }
    let k = find_char(&v, '.', j + 1);
    if k < n {
        return None;
    }
    Some(token.substring_char(i + 1, j))
}

/// `p` padded with `=` to a length that is a multiple of four.
fn padded(p: &str) -> (r: String)
    ensures
        r@ == with_padding(p@),
{
    let n = p.unicode_len();
    let rem = n % 4;
    let count: usize = if rem == 0 { 0 } else { 4 - rem };
    let mut out = p.to_string();
    let mut c: usize = 0;
    proof {
        reveal_strlit("=");
    }
    while c < count
        invariant
            c <= count,
            count == padding_len(p@.len()),
            "="@ == seq!['='],
            out@ == p@ + Seq::new(c as nat, |_i: int| '='),
        decreases count - c,
    {
        out.append("=");
        c = c + 1;
        assert(out@ =~= p@ + Seq::new(c as nat, |_i: int| '='));
    }
    out
}

/// The bytes of a payload segment; the unpadded decoding is tried first.
fn decode_payload(p: &str) -> (r: Option<Vec<u8>>)
    ensures
        match r {
            Some(b) => decoded_payload(p@) == Some(b@),
            None => decoded_payload(p@) is None,
        },
{
    match decode_url_safe_unpadded(p) {
        Some(b) => Some(b),
        None => {
            let q = padded(p);
            decode_url_safe_padded(q.as_str())
        },
    }
}

/// The identity named by a subject claim: what follows the first `|`, if any.
pub fn identity_from_subject(sub: &str) -> (r: String)
    ensures
        r@ == identity_of_subject(sub@),
{
    let v = chars_of(sub);
    let k = find_char(&v, '|', 0);
    proof {
        lemma_index_of_bounds(v@, '|', 0);
    }
    if k < v.len() {
        sub.substring_char(k + 1, v.len()).to_string()
    } else {
        sub.to_string()
    }
}

/// The identity that the bare signed token `token` names. The signature is not
/// checked: the remote service establishes trust.
pub fn extract_user_id_from_jwt(token: &str) -> (r: Result<String, ExchangeError>)
    ensures
        match r {
            Ok(id) => jwt_identity(token@) == Some(id@),
            Err(e) => jwt_identity(token@) is None && e is MalformedCredential,
        },
{
    let p = match payload_segment(token) {
        Some(p) => p,
        None => return Err(ExchangeError::MalformedCredential),
    };
    let bytes = match decode_payload(p) {
        Some(b) => b,
        None => return Err(ExchangeError::MalformedCredential),
    };
    proof {
        reveal_strlit("sub");
        assert("sub"@ =~= subject_key());
    }
    match json_string_member(bytes.as_slice(), "sub") {
        Some(sub) => Ok(identity_from_subject(sub.as_str())),
        None => Err(ExchangeError::MalformedCredential),
    }
}

fn is_composable_identity(id: &str) -> (r: bool)
    ensures
        r == composable_identity(id@),
{
    let v = chars_of(id);
    let n = v.len();
    if is_session_token(id) {
        return false;
    }
    if n > 0 && (v[n - 1] == ':' || is_white_space_char(v[0])) {
        return false;
    }
    true
}

/// The composite form of `token`: its separators decoded when it is composite,
/// else `identity::token` with the identity that the signed token names. An
/// identity that could not be read back from that form is refused.
pub fn convert_to_session_token(token: &str) -> (r: Result<String, ExchangeError>)
    ensures
        match r {
            Ok(s) => session_token_of(token@) == Some(s@),
            Err(e) => session_token_of(token@) is None && e is MalformedCredential,
        },
{
    if is_session_token(token) {
        Ok(decode_encoded_separators(token))
    } else {
        let mut s = extract_user_id_from_jwt(token)?;
        if !is_composable_identity(s.as_str()) {
            return Err(ExchangeError::MalformedCredential);
        }
        proof {
            reveal_strlit("::");
        }
        s.append("::");
        s.append(token);
        Ok(s)
    }
}

/// The identity of a well-formed bare token whose payload carries the subject
/// claim `sub` is what follows the first `|` of `sub`, or all of `sub` when it holds
/// no `|`.
pub proof fn lemma_identity_follows_first_bar(t: Seq<char>, sub: Seq<char>)
    requires
        jwt_payload(t) is Some,
        decoded_payload(jwt_payload(t)->0) is Some,
        json_member(decoded_payload(jwt_payload(t)->0)->0, subject_key()) == Some(sub),
    ensures
        forall|k: int|
            0 <= k < sub.len() && sub[k] == '|' && (forall|j: int| 0 <= j < k ==> sub[j] != '|')
                ==> jwt_identity(t) == Some(#[trigger] sub.subrange(k + 1, sub.len() as int)),
        (forall|j: int| 0 <= j < sub.len() ==> sub[j] != '|') ==> jwt_identity(t) == Some(sub),
{
    assert forall|k: int|
        0 <= k < sub.len() && sub[k] == '|' && (forall|j: int| 0 <= j < k ==> sub[j] != '|')
            implies jwt_identity(t) == Some(#[trigger] sub.subrange(k + 1, sub.len() as int)) by {
        lemma_index_of_first(sub, '|', 0, k);
    }
    if forall|j: int| 0 <= j < sub.len() ==> sub[j] != '|' {
        lemma_index_of_first(sub, '|', 0, sub.len() as int);
    }
}

/// A bare token that names a composable identity normalises to `identity::token`,
/// which is itself classified as composite.
pub proof fn lemma_bare_token_normalizes_to_composite(t: Seq<char>)
    requires
        !is_composite(t),
        jwt_identity(t) is Some,
        composable_identity(jwt_identity(t)->0),
    ensures
        session_token_of(t) == Some(jwt_identity(t)->0 + separator() + t),
        is_composite(session_token_of(t)->0),
{
    let id = jwt_identity(t)->0;
    let s = id + separator() + t;
    assert(sep_at(s, id.len() as int));
    assert(marks_composite(s, id.len() as int));
}


/// First position at or after `from` where `s` holds `::`, or `s.len()`.
pub open spec fn sep_index(s: Seq<char>, from: int) -> int
    decreases s.len() - from,
{
    if from >= s.len() {
        s.len() as int
    } else if sep_at(s, from) {
        from
    } else {
        sep_index(s, from + 1)
    }
}

proof fn lemma_sep_index_bounds(s: Seq<char>, from: int)
    requires
        0 <= from,
    ensures
        sep_index(s, from) <= s.len(),
        from <= s.len() ==> from <= sep_index(s, from),
        sep_index(s, from) < s.len() ==> sep_at(s, sep_index(s, from)),
    decreases s.len() - from,
{
    if from < s.len() && !sep_at(s, from) {
        lemma_sep_index_bounds(s, from + 1);
    }
}

/// The identity of a composite credential: the first of exactly two parts that
/// splitting its decoded form on `::` gives.
pub open spec fn composite_identity(t: Seq<char>) -> Option<Seq<char>> {
    let d = decode_separators(t);
    let k = sep_index(d, 0);
    if k < d.len() && sep_index(d, k + 2) >= d.len() {
        Some(d.subrange(0, k))
    } else {
        None
    }
}

/// Kind, identity and validity that validation reports for an already trimmed
/// credential `t`.
pub open spec fn token_info_of(t: Seq<char>) -> (Seq<char>, Option<Seq<char>>, bool) {
    if is_composite(t) {
        match composite_identity(t) {
            Some(id) => ("session"@, Some(id), true),
            None => ("unknown"@, None, false),
        }
    } else {
        match jwt_identity(t) {
            Some(id) => ("jwt"@, Some(id), true),
            None => ("unknown"@, None, false),
        }
    }
}

fn find_separator(v: &Vec<char>, from: usize) -> (r: usize)
    requires
        from <= v@.len(),
    ensures
        r as int == sep_index(v@, from as int),
{
    let mut i = from;
    while i < v.len()
        invariant
            from <= i <= v@.len(),
            sep_index(v@, from as int) == sep_index(v@, i as int),
        decreases v@.len() - i,
    {
        if sep_at_exec(v, i) {
            return i;
        }
        i = i + 1;
    }
    i
}

fn composite_user_id(t: &str) -> (r: Option<String>)
    ensures
        opt_view(r) == composite_identity(t@),
{
    let d = decode_encoded_separators(t);
    let v = chars_of(d.as_str());
    let k = find_separator(&v, 0);
    proof {
        lemma_sep_index_bounds(v@, 0);
    }
    if k >= v.len() {
        return None;
    }
    let k2 = find_separator(&v, k + 2);
    if k2 < v.len() {
        return None;
    }
    Some(d.as_str().substring_char(0, k).to_string())
}

fn token_info(kind: &str, user_id: Option<String>, is_valid: bool) -> (r: TokenInfo)
    ensures
        r.token_type@ == kind@,
        r.user_id == user_id,
        r.is_valid == is_valid,
{
    TokenInfo { token_type: kind.to_string(), user_id, is_valid }
}

/// Classifies `token` after trimming it, and reads the identity it names, without
/// any network call. Never fails: what cannot be read is reported as `"unknown"`
/// and invalid.
pub fn validate_token_info(token: &str) -> (r: Result<TokenInfo, ExchangeError>)
    ensures
        r matches Ok(info) && (info.token_type@, opt_view(info.user_id), info.is_valid)
            == token_info_of(trimmed(token@)),
{
    let t = trim_text(token);
    if is_session_token(t) {
        match composite_user_id(t) {
            Some(id) => Ok(token_info("session", Some(id), true)),
            None => Ok(token_info("unknown", None, false)),
        }
    } else {
        match extract_user_id_from_jwt(t) {
            Ok(id) => Ok(token_info("jwt", Some(id), true)),
            Err(_) => Ok(token_info("unknown", None, false)),
        }
    }
}


proof fn lemma_decode_without_encoded(s: Seq<char>, i: int)
    requires
        0 <= i <= s.len(),
        forall|j: int| !encoded_sep_at(s, j),
    ensures
        decode_from(s, i) == s.subrange(i, s.len() as int),
    decreases s.len() - i,
{
    if i < s.len() {
        lemma_decode_without_encoded(s, i + 1);
        assert(seq![s[i]] + s.subrange(i + 1, s.len() as int) =~= s.subrange(i, s.len() as int));
    } else {
        assert(s.subrange(i, s.len() as int) =~= Seq::<char>::empty());
    }
}

proof fn lemma_sep_index_first(s: Seq<char>, from: int, k: int)
    requires
        0 <= from <= k <= s.len(),
        k < s.len() ==> sep_at(s, k),
        forall|j: int| from <= j < k ==> !sep_at(s, j),
    ensures
        sep_index(s, from) == k,
    decreases k - from,
{
    if from < k {
        lemma_sep_index_first(s, from + 1, k);
    }
}

/// A trimmed, non-empty `t` ends in a character other than white space.
proof fn lemma_trimmed_ends_in_content(t: Seq<char>)
    requires
        t.len() > 0,
        trimmed(t) == t,
    ensures
        !is_white_space(t.last()),
{
    let b = content_end(t, t.len() as int);
    lemma_content_end_bounds(t, t.len() as int);
    lemma_content_bounds(t);
    assert(b == t.len());
    if is_white_space(t.last()) {
        lemma_content_end_bounds(t, t.len() - 1);
    }
}

/// Normalising a trimmed bare token and then validating the result gives back the
/// identity that the bare token names: the composite form is classified as a
/// session credential whose identity agrees with the bare token's.
pub proof fn lemma_normalized_identity_round_trip(t: Seq<char>)
    requires
        !is_composite(t),
        trimmed(t) == t,
        session_token_of(t) is Some,
    ensures
        jwt_identity(t) is Some,
        token_info_of(trimmed(session_token_of(t)->0)) == ("session"@, jwt_identity(t), true),
{
    let id = jwt_identity(t)->0;
    let n = id.len() as int;
    let s = id + separator() + t;
    assert(session_token_of(t)->0 == s);
    lemma_index_of_bounds(t, '.', 0);
    assert(t.len() > 0);
    lemma_trimmed_ends_in_content(t);
    // `s` starts and ends in content, so trimming keeps it whole.
    assert(!is_white_space(s[0])) by {
        if n == 0 {
            assert(s[0] == ':');
        } else {
            assert(s[0] == id[0]);
        }
    }
    assert(s.last() == t.last());
    assert(content_start(s, 0) == 0);
    assert(content_end(s, s.len() as int) == s.len());
    assert(s.subrange(0, s.len() as int) =~= s);
    assert(trimmed(s) == s);
    // No encoded separator straddles the literal one, so decoding keeps `s`.
    assert forall|j: int| !encoded_sep_at(s, j) by {
        if encoded_sep_at(s, j) {
            if j + 5 < n {
                assert(encoded_sep_at(id, j));
                assert(marks_composite(id, j));
            } else if j >= n + 2 {
                assert(encoded_sep_at(t, j - n - 2));
                assert(marks_composite(t, j - n - 2));
            } else {
                assert(s[n] == ':' && s[n + 1] == ':');
            }
        }
    }
    lemma_decode_without_encoded(s, 0);
    assert(decode_separators(s) =~= s);
    // The first `::` is the one that was inserted, and no other follows it.
    assert forall|j: int| 0 <= j < n implies !sep_at(s, j) by {
        if sep_at(s, j) {
            if j + 1 < n {
                assert(sep_at(id, j));
                assert(marks_composite(id, j));
            } else {
                assert(id.last() == s[j]);
            }
        }
    }
    assert(sep_at(s, n));
    lemma_sep_index_first(s, 0, n);
    assert forall|j: int| n + 2 <= j < s.len() implies !sep_at(s, j) by {
        if sep_at(s, j) {
            assert(sep_at(t, j - n - 2));
            assert(marks_composite(t, j - n - 2));
        }
    }
    lemma_sep_index_first(s, n + 2, s.len() as int);
    assert(s.subrange(0, n) =~= id);
    assert(marks_composite(s, n));
    assert(composite_identity(s) == Some(id));
}

/// A composite credential without encoded separators is kept as it is: it is
/// not decoded as a signed token and its text is unchanged.
pub proof fn lemma_composite_token_kept(t: Seq<char>)
    requires
        is_composite(t),
        forall|j: int| !encoded_sep_at(t, j),
    ensures
        session_token_of(t) == Some(t),
{
    lemma_decode_without_encoded(t, 0);
    assert(t.subrange(0, t.len() as int) =~= t);
}

} // verus!
