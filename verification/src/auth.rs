//! The token header of a request made for a user: what it must look like
//! and which token value it carries.

use vstd::prelude::*;
use vstd::string::StrSliceExecFns;
use vstd::string::StringExecFns;
use crate::text::chars_of;

verus! {

/// What the upstream platform tells of a user token that it accepts.
#[derive(Debug)]
pub struct TwitchValidateToken {
    pub client_id: String,
    pub login: String,
    pub scopes: Vec<String>,
    pub user_id: String,
    pub expires_in: u32,
}

/// A user token that the upstream platform accepted, with what it told.
#[derive(Debug)]
pub struct AccessTokenResponse {
    pub validate_token: TwitchValidateToken,
    pub token: String,
}

/// The value of a user token.
#[derive(Debug)]
pub struct AccessToken(pub String);

/// Why a request carries no usable user token.
#[derive(Debug, Clone, Copy, PartialEq, Eq, Structural, Hash)]
pub enum AccessTokenError {
    /// The request has no token header.
    Missing,
    /// The request has more than one token header, or one that is not of
    /// the form `Bearer`, a space, and a value.
    Invalid,
}

/// What to do with a request, by its token headers.
#[derive(Debug)]
pub enum TokenDecision {
    /// Refuse the request as unauthorized.
    Reject(AccessTokenError),
    /// Have the upstream platform validate this token value.
    Authenticate(String),
}

/// The characters of `text` before its first space: all, if it has none.
pub open spec fn before_space(text: Seq<char>) -> Seq<char>
    decreases text.len(),
{
    if text.len() == 0 || text[0] == ' ' {
        Seq::empty()
    } else {
        seq![text[0]] + before_space(text.skip(1))
    }
}

/// The characters of `text` behind its first space, where it has one.
pub open spec fn after_space(text: Seq<char>) -> Option<Seq<char>> {
    if before_space(text).len() < text.len() {
        Some(text.skip(before_space(text).len() as int + 1))
    } else {
        None
    }
}

/// The header names the scheme `Bearer`: that is what stands before its
/// first space.
pub open spec fn names_bearer(header: Seq<char>) -> bool {
    before_space(header) == "Bearer"@
}

/// The token value that a header of the scheme `Bearer` carries: what
/// stands between its first space and its second, or its end.
pub open spec fn bearer_value(header: Seq<char>) -> Option<Seq<char>> {
    if names_bearer(header) && after_space(header) is Some {
        Some(before_space(after_space(header)->0))
    } else {
        None
    }
}

/// What the token headers of a request call for: without a header the
/// token is missing; a single header of the scheme `Bearer` with a value
/// has that value validated; anything else is invalid.
pub open spec fn decision_for(headers: Seq<Seq<char>>) -> Result<Seq<char>, AccessTokenError> {
    if headers.len() == 0 {
        Err(AccessTokenError::Missing)
    } else if headers.len() == 1 && bearer_value(headers[0]) is Some {
        Ok(bearer_value(headers[0])->0)
    } else {
        Err(AccessTokenError::Invalid)
    }
}

proof fn lemma_before_space(text: Seq<char>, from: int, to: int)
    requires
        0 <= from <= to <= text.len(),
        forall|i: int| from <= i < to ==> text[i] != ' ',
        to == text.len() || text[to] == ' ',
    ensures
        before_space(text.skip(from)) == text.subrange(from, to),
    decreases to - from,
{
    let rest = text.skip(from);
    if from == to {
        assert(text.subrange(from, to) =~= Seq::<char>::empty());
    } else {
        assert(rest[0] == text[from]);
        assert(rest.skip(1) =~= text.skip(from + 1));
        lemma_before_space(text, from + 1, to);
        assert(seq![text[from]] + text.subrange(from + 1, to) =~= text.subrange(from, to));
    }
}

/// The position of the first space of `chars` at or behind `from`, or the
/// length of `chars` if there is none.
fn next_space(chars: &Vec<char>, from: usize) -> (at: usize)
    requires
        from <= chars.len(),
    ensures
        from <= at <= chars.len(),
        before_space(chars@.skip(from as int)) == chars@.subrange(from as int, at as int),
        at == chars.len() || chars[at as int] == ' ',
{
    let mut at: usize = from;
    while at < chars.len() && chars[at] != ' '
        invariant
            from <= at <= chars.len(),
            forall|i: int| from <= i < at ==> chars[i] != ' ',
        decreases chars.len() - at,
    {
        at += 1;
    }
    proof {
        lemma_before_space(chars@, from as int, at as int);
    }
    at
}

/// What stands in `text` before its first space.
pub fn first_word(text: &str) -> (word: String)
    ensures
        word@ == before_space(text@),
{
    let chars = chars_of(text);
    let end = next_space(&chars, 0);
    assert(text@.skip(0) =~= text@);
    String::from_str(text.substring_char(0, end))
}

/// Whether the header names the scheme `Bearer`.
pub fn is_token_valid(token: &str) -> (valid: bool)
    ensures
        valid == names_bearer(token@),
{
    first_word(token) == String::from_str("Bearer")
}

/// The token value that a header of the scheme `Bearer` carries.
pub fn bearer_token(header: &str) -> (value: Option<String>)
    ensures
        value.deep_view() == bearer_value(header@),
{
    let chars = chars_of(header);
    let end = next_space(&chars, 0);
    assert(header@.skip(0) =~= header@);
    if !(String::from_str(header.substring_char(0, end)) == String::from_str("Bearer")) {
        return None;
    }
    if end == chars.len() {
        return None;
    }
    let stop = next_space(&chars, end + 1);
    Some(String::from_str(header.substring_char(end + 1, stop)))
}

/// Decides by the token headers of a request what to do with it.
pub fn judge_token_headers(headers: &Vec<String>) -> (decision: TokenDecision)
    ensures
        match decision_for(headers.deep_view()) {
            Ok(value) => decision matches TokenDecision::Authenticate(v) && v@ == value,
            Err(reason) => decision == TokenDecision::Reject(reason),
        },
{
    if headers.len() == 0 {
        return TokenDecision::Reject(AccessTokenError::Missing);
    }
    if headers.len() > 1 {
        return TokenDecision::Reject(AccessTokenError::Invalid);
    }
    assert(headers.deep_view()[0] == headers[0]@);
    match bearer_token(headers[0].as_str()) {
        Some(value) => TokenDecision::Authenticate(value),
        None => TokenDecision::Reject(AccessTokenError::Invalid),
    }
}

} // verus!
