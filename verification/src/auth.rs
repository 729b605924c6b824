//! Authentication utilities for token handling.

use vstd::prelude::*;
use vstd::utf8::encode_utf8;

use crate::error::TunnelError;
use crate::text::{append_decimal, byte_len, decimal_text, utf8_len};

verus! {

/// One or zero, for true and false.
pub open spec fn flag(b: bool) -> u8 {
    if b {
        1
    } else {
        0
    }
}

/// Compares two lengths in constant time: `subtle::ConstantTimeEq::ct_eq` on `usize`, which
/// gives one for equal values and zero for others.
#[verifier::external_body]
fn ct_eq_len(a: usize, b: usize) -> (r: u8)
    ensures
        r == flag(a == b),
{
    subtle::ConstantTimeEq::ct_eq(&a, &b).unwrap_u8()
}

/// Compares two bytes in constant time: `subtle::ConstantTimeEq::ct_eq` on `u8`, which gives
/// one for equal values and zero for others.
#[verifier::external_body]
fn ct_eq_byte(a: u8, b: u8) -> (r: u8)
    ensures
        r == flag(a == b),
{
    subtle::ConstantTimeEq::ct_eq(&a, &b).unwrap_u8()
}

/// Whether two choices both hold: `&` on `subtle::Choice`, whose values are zero and one.
#[verifier::external_body]
fn ct_and(a: u8, b: u8) -> (r: u8)
    requires
        a <= 1,
        b <= 1,
    ensures
        r == flag(a == 1 && b == 1),
{
    (subtle::Choice::from(a) & subtle::Choice::from(b)).unwrap_u8()
}

/// Whether one of two choices holds: `|` on `subtle::Choice`, whose values are zero and one.
#[verifier::external_body]
fn ct_or(a: u8, b: u8) -> (r: u8)
    requires
        a <= 1,
        b <= 1,
    ensures
        r == flag(a == 1 || b == 1),
{
    (subtle::Choice::from(a) | subtle::Choice::from(b)).unwrap_u8()
}

fn byte_or_zero(s: &[u8], index: usize) -> (r: u8)
    ensures
        r == (if index < s@.len() {
            s@[index as int]
        } else {
            0
        }),
{
    if index < s.len() {
        s[index]
    } else {
        0
    }
}

/// Compares two byte strings in constant time; one where they are equal, zero where not.
///
/// The comparison runs over the longer of the two and folds the length check into the result,
/// so that it does not stop early.
pub fn constant_time_choice(a: &[u8], b: &[u8]) -> (r: u8)
    ensures
        r == flag(a@ == b@),
{
    let max_len: usize = if a.len() >= b.len() {
        a.len()
    } else {
        b.len()
    };
    let mut matches: u8 = ct_eq_len(a.len(), b.len());
    let mut index: usize = 0;
    while index < max_len
        invariant
            index <= max_len,
            max_len >= a@.len(),
            max_len >= b@.len(),
            max_len == a@.len() || max_len == b@.len(),
            matches <= 1,
            matches == 1 <==> a@.len() == b@.len() && forall|j: int|
                0 <= j < index ==> a@[j] == b@[j],
        decreases max_len - index,
    {
        let left: u8 = byte_or_zero(a, index);
        let right: u8 = byte_or_zero(b, index);
        let same: u8 = ct_eq_byte(left, right);
        matches = ct_and(matches, same);
        index += 1;
    }
    proof {
        if matches == 1 {
            assert(a@ =~= b@);
        }
    }
    matches
}

/// Compares two byte strings in constant time.
pub fn constant_time_eq(a: &[u8], b: &[u8]) -> (r: bool)
    ensures
        r == (a@ == b@),
{
    constant_time_choice(a, b) == 1
}

/// Whether a byte string is the UTF-8 form of one of a list of tokens.
pub open spec fn is_listed(tokens: Seq<String>, presented: Seq<u8>) -> bool {
    exists|i: int| 0 <= i < tokens.len() && encode_utf8(#[trigger] tokens[i]@) == presented
}

/// Whether a byte string equals one of a list of tokens; all of them are compared.
pub fn matches_any_token(tokens: &Vec<String>, presented: &[u8]) -> (r: bool)
    ensures
        r == is_listed(tokens@, presented@),
        r <==> exists|i: int| 0 <= i < tokens@.len() && encode_utf8(#[trigger] tokens@[i]@) == presented@,
{
    let mut matches: u8 = 0;
    let mut i: usize = 0;
    while i < tokens.len()
        invariant
            i <= tokens@.len(),
            matches <= 1,
            matches == 1 <==> exists|j: int|
                0 <= j < i && encode_utf8(#[trigger] tokens@[j]@) == presented@,
        decreases tokens@.len() - i,
    {
        let ghost before = matches;
        let same: u8 = constant_time_choice(tokens[i].as_str().as_bytes(), presented);
        matches = ct_or(matches, same);
        proof {
            if matches == 1 {
                if before == 1 {
                    let j = choose|j: int|
                        0 <= j < i && encode_utf8(#[trigger] tokens@[j]@) == presented@;
                    assert(0 <= j < i + 1 && encode_utf8(tokens@[j]@) == presented@);
                } else {
                    assert(encode_utf8(tokens@[i as int]@) == presented@);
                }
            }
        }
        i += 1;
    }
    matches == 1
}

/// The SHA-256 digest of a byte string.
pub uninterp spec fn sha256(bytes: Seq<u8>) -> Seq<u8>;

/// Computes a SHA-256 digest: `sha2::Sha256` fed with all of the bytes. The result is
/// [`sha256`] of them.
#[verifier::external_body]
fn digest(bytes: &[u8]) -> (r: [u8; 32])
    ensures
        r@ == sha256(bytes@),
{
    <sha2::Sha256 as sha2::Digest>::digest(bytes).into()
}

/// Hashes a token using SHA-256, to store the hash in its place.
pub fn hash_token(token: &str) -> (r: [u8; 32])
    ensures
        r@ == sha256(encode_utf8(token@)),
{
    digest(token.as_bytes())
}

/// Verifies a token against a stored hash in constant time.
pub fn verify_token_hash(token: &str, expected_hash: &[u8; 32]) -> (r: bool)
    ensures
        r == (sha256(encode_utf8(token@)) == expected_hash@),
{
    let token_hash = hash_token(token);
    constant_time_eq(token_hash.as_slice(), expected_hash.as_slice())
}

/// A character that a token may hold: printable ASCII.
pub open spec fn token_char(c: char) -> bool {
    ' ' <= c <= '~'
}

/// Token validation errors.
#[derive(Debug, Clone, Copy, PartialEq, Eq, Structural)]
pub enum TokenValidationError {
    Empty,
    TooLong { len: usize, max: usize },
    InvalidCharacters,
}

impl TokenValidationError {
    /// The error as a message.
    pub open spec fn text(self) -> Seq<char> {
        match self {
            TokenValidationError::Empty => "token is empty"@,
            TokenValidationError::TooLong { len, max } => "token too long: "@ + decimal_text(
                len as nat,
            ) + " bytes exceeds maximum of "@ + decimal_text(max as nat) + " bytes"@,
            TokenValidationError::InvalidCharacters => "token contains invalid characters"@,
        }
    }

    /// The error as a message.
    pub fn message(self) -> (r: String)
        ensures
            r@ == self.text(),
    {
        match self {
            TokenValidationError::Empty => "token is empty".to_owned(),
            TokenValidationError::TooLong { len, max } => {
                let mut text = "token too long: ".to_owned();
                append_decimal(&mut text, len as u64);
                text.append(" bytes exceeds maximum of ");
                append_decimal(&mut text, max as u64);
                text.append(" bytes");
                text
            },
            TokenValidationError::InvalidCharacters => "token contains invalid characters".to_owned(),
        }
    }

    /// The error as the tunnel reports it.
    pub fn into_tunnel_error(self) -> (r: TunnelError)
        ensures
            r is Authentication,
            r.text() == self.text(),
    {
        TunnelError::Authentication(self.message())
    }
}

/// The complaint about the format of a token, in the order in which it is checked.
pub open spec fn token_complaint(token: Seq<char>, max_len: usize) -> Option<TokenValidationError> {
    if token.len() == 0 {
        Some(TokenValidationError::Empty)
    } else if byte_len(token) > max_len {
        Some(TokenValidationError::TooLong { len: byte_len(token) as usize, max: max_len })
    } else if exists|i: int| 0 <= i < token.len() && !token_char(#[trigger] token[i]) {
        Some(TokenValidationError::InvalidCharacters)
    } else {
        None
    }
}

/// Validates the format of a token: not empty, at most `max_len` bytes, printable ASCII.
pub fn validate_token_format(token: &str, max_len: usize) -> (r: Result<(), TokenValidationError>)
    ensures
        match r {
            Ok(()) => token_complaint(token@, max_len) is None,
            Err(e) => token_complaint(token@, max_len) == Some(e),
        },
{
    if token.is_empty() {
        return Err(TokenValidationError::Empty);
    }
    let len: usize = utf8_len(token);
    if len > max_len {
        return Err(TokenValidationError::TooLong { len, max: max_len });
    }
    if !token.is_ascii() {
        proof {
            assert(!vstd::utf8::is_ascii_chars(token@));
            let i = choose|i: int|
                0 <= i < token@.len() && !('\0' <= #[trigger] token@[i] <= '\u{7f}');
            assert(!token_char(token@[i]));
        }
        return Err(TokenValidationError::InvalidCharacters);
    }
    let bytes = token.as_bytes();
    proof {
        vstd::utf8::is_ascii_chars_encode_utf8(token@);
    }
    let mut i: usize = 0;
    while i < bytes.len()
        invariant
            bytes@ == encode_utf8(token@),
            bytes@ =~= Seq::new(token@.len(), |j: int| token@[j] as u8),
            vstd::utf8::is_ascii_chars(token@),
            token@.len() > 0,
            byte_len(token@) <= max_len,
            i <= bytes@.len(),
            forall|j: int| 0 <= j < i ==> token_char(#[trigger] token@[j]),
        decreases bytes@.len() - i,
    {
        proof {
            assert('\0' <= token@[i as int] <= '\u{7f}');
            assert(bytes@[i as int] == token@[i as int] as u8);
        }
        if bytes[i] < 32 || bytes[i] > 126 {
            proof {
                assert(!token_char(token@[i as int]));
            }
            return Err(TokenValidationError::InvalidCharacters);
        }
        i += 1;
    }
    Ok(())
}

/// A token is accepted exactly where it has at least one character, all of them with code points
/// from 32 to 126, and no more than the limit. An empty one is told first, then one that is too
/// long, with its length in bytes, and then one with other characters.
pub proof fn law_printable_tokens_are_accepted(
    token: &str,
    max_len: usize,
    len: usize,
    r: Result<(), TokenValidationError>,
)
    requires
        call_ensures(validate_token_format, (token, max_len), r),
        call_ensures(utf8_len, (token,), len),
    ensures
        r is Ok <==> 1 <= token@.len() <= max_len && forall|i: int|
            0 <= i < token@.len() ==> 32 <= (#[trigger] token@[i]) as int <= 126,
        token@.len() == 0 ==> r == Err::<(), TokenValidationError>(TokenValidationError::Empty),
        token@.len() > 0 && len > max_len ==> r == Err::<(), TokenValidationError>(
            TokenValidationError::TooLong { len, max: max_len },
        ),
        token@.len() > 0 && len <= max_len && r is Err ==> r == Err::<(), TokenValidationError>(
            TokenValidationError::InvalidCharacters,
        ),
{
    if forall|i: int| 0 <= i < token@.len() ==> 32 <= (#[trigger] token@[i]) as int <= 126 {
        assert(vstd::utf8::is_ascii_chars(token@));
        vstd::utf8::is_ascii_chars_encode_utf8(token@);
    }
    if r is Ok {
        assert forall|i: int| 0 <= i < token@.len() implies 32 <= (
        #[trigger] token@[i]) as int <= 126 by {
            assert(token_char(token@[i]));
        }
    }
}

/// Byte strings are equal exactly where they have the same length and the same bytes in the same
/// places.
pub proof fn law_comparison_is_byte_by_byte(a: &[u8], b: &[u8], r: bool, choice: u8)
    requires
        call_ensures(constant_time_eq, (a, b), r),
        call_ensures(constant_time_choice, (a, b), choice),
    ensures
        r <==> a@.len() == b@.len() && forall|i: int|
            0 <= i < a@.len() ==> #[trigger] a@[i] == b@[i],
        choice == 1 <==> r,
        choice == 0 <==> !r,
{
    if a@.len() == b@.len() && forall|i: int| 0 <= i < a@.len() ==> #[trigger] a@[i] == b@[i] {
        assert(a@ =~= b@);
    }
}

/// A presented token is one of the list exactly where its bytes are those of one of them.
pub proof fn law_any_listed_token_matches(
    tokens: &Vec<String>,
    presented: &[u8],
    i: int,
    r: bool,
)
    requires
        call_ensures(matches_any_token, (tokens, presented), r),
    ensures
        0 <= i < tokens@.len() && presented@ == encode_utf8(tokens@[i]@) ==> r,
        (forall|j: int|
            0 <= j < tokens@.len() ==> encode_utf8(#[trigger] tokens@[j]@) != presented@) ==> !r,
{
}

/// A token is verified against the hash that was stored for it, and any token with another hash is
/// not.
pub proof fn law_stored_hash_verifies_its_token(
    token: &str,
    hash: [u8; 32],
    presented: &str,
    stored: &[u8; 32],
    other: [u8; 32],
    r: bool,
)
    requires
        call_ensures(hash_token, (token,), hash),
        call_ensures(hash_token, (presented,), other),
        stored@ == hash@,
        call_ensures(verify_token_hash, (presented, stored), r),
    ensures
        presented@ == token@ ==> r,
        r <==> other@ == hash@,
        hash@ == sha256(encode_utf8(token@)),
{
}

/// Token errors are told in words, and to the tunnel as failed authentication.
pub proof fn law_token_errors_are_told(
    error: TokenValidationError,
    r: String,
    reported: TunnelError,
    n: u64,
    number: String,
    m: u64,
    bound: String,
)
    requires
        call_ensures(TokenValidationError::message, (error,), r),
        call_ensures(TokenValidationError::into_tunnel_error, (error,), reported),
        call_ensures(crate::text::decimal, (n,), number),
        call_ensures(crate::text::decimal, (m,), bound),
    ensures
        error == TokenValidationError::Empty ==> r@ == "token is empty"@,
        error == TokenValidationError::InvalidCharacters ==> r@
            == "token contains invalid characters"@,
        error matches TokenValidationError::TooLong { len, max } ==> len == n && max == m ==> r@
            == "token too long: "@ + number@ + " bytes exceeds maximum of "@ + bound@ + " bytes"@,
        reported is Authentication && reported->Authentication_0@ == r@,
{
}

/// Every token can be validated, hashed and compared.
pub proof fn law_any_token_can_be_checked(
    token: &str,
    max_len: usize,
    a: &[u8],
    b: &[u8],
    hash: &[u8; 32],
)
    ensures
        call_requires(validate_token_format, (token, max_len)),
        call_requires(constant_time_eq, (a, b)),
        call_requires(hash_token, (token,)),
        call_requires(verify_token_hash, (token, hash)),
{
}

} // verus!
