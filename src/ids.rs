//! Opaque 64-bit identifiers and their compact base-62 text form.
use vstd::prelude::*;

verus! {

/// The character that stands for the base-62 digit `d` (0-9, then A-Z, then a-z).
pub open spec fn b62_char(d: nat) -> char {
    if d < 10 {
        (48 + d) as u32 as char
    } else if d < 36 {
        (55 + d) as u32 as char
    } else {
        (61 + d) as u32 as char
    }
}

/// The digit value of a base-62 character, or -1 for any other character.
pub open spec fn b62_digit(c: char) -> int {
    let v = c as u32 as int;
    if 48 <= v <= 57 {
        v - 48
    } else if 65 <= v <= 90 {
        v - 55
    } else if 97 <= v <= 122 {
        v - 61
    } else {
        -1
    }
}

/// A non-empty text made only of base-62 digits.
pub open spec fn is_b62_text(s: Seq<char>) -> bool {
    s.len() > 0 && forall|i: int| 0 <= i < s.len() ==> b62_digit(#[trigger] s[i]) >= 0
}

/// The number that a text of base-62 digits denotes, most significant digit first.
pub open spec fn b62_value(s: Seq<char>) -> nat
    decreases s.len(),
{
    if s.len() == 0 {
        0
    } else {
        b62_value(s.drop_last()) * 62 + b62_digit(s.last()) as nat
    }
}

/// The canonical base-62 text of `n`: no leading zero, and "0" for zero.
pub open spec fn b62_text(n: nat) -> Seq<char>
    decreases n,
{
    if n < 62 {
        seq![b62_char(n)]
    } else {
        b62_text(n / 62).push(b62_char(n % 62))
    }
}

/// The canonical text is made of base-62 digits and denotes `n`.
pub proof fn lemma_b62_text(n: nat)
    ensures
        is_b62_text(b62_text(n)),
        b62_value(b62_text(n)) == n,
    decreases n,
{
    if n < 62 {
        let s = b62_text(n);
        assert(s.drop_last() =~= Seq::<char>::empty());
        assert(b62_value(s.drop_last()) == 0);
        assert(b62_digit(s.last()) == n);
    } else {
        lemma_b62_text(n / 62);
        let s = b62_text(n);
        assert(s.drop_last() =~= b62_text(n / 62));
        assert(b62_digit(b62_char(n % 62)) == n % 62);
        assert(s.last() == b62_char(n % 62));
        vstd::arithmetic::div_mod::lemma_fundamental_div_mod(n as int, 62);
        assert forall|i: int| 0 <= i < s.len() implies b62_digit(#[trigger] s[i]) >= 0 by {
            if i < s.len() - 1 {
                assert(s[i] == b62_text(n / 62)[i]);
            }
        }
    }
}

/// Relies on base62::encode: the standard alphabet (0-9, A-Z, a-z), most significant
/// digit first, without leading zeros, and "0" for zero.
#[verifier::external_body]
fn base62_encode(n: u64) -> (r: String)
    ensures
        r@ == b62_text(n as nat),
{
    base62::encode(n)
}

/// Relies on base62::decode: it fails on an empty text, on a character outside the
/// standard alphabet and on a value that does not fit in 128 bits, and otherwise
/// returns the value of the digits.
#[verifier::external_body]
fn base62_decode(s: &str) -> (r: Option<u128>)
    ensures
        r is Some <==> (is_b62_text(s@) && b62_value(s@) <= u128::MAX),
        r matches Some(v) ==> v == b62_value(s@),
{
    base62::decode(s).ok()
}

/// Why a text is not the form of an identifier.
#[derive(Debug, Clone, Copy, PartialEq, Eq)]
pub enum IdFormatError {
    /// The text is empty or holds a character that is not a base-62 digit.
    NotBase62,
    /// The digits denote a number that needs more than 64 bits.
    TooLarge,
}

/// Whether `s` is the text of some 64-bit identifier.
pub open spec fn decodes_to_id(s: Seq<char>) -> bool {
    is_b62_text(s) && b62_value(s) <= u64::MAX
}

/// Renders a 64-bit identifier in base 62.
pub fn encode_id(n: u64) -> (r: String)
    ensures
        r@ == b62_text(n as nat),
{
    base62_encode(n)
}

/// Parses the base-62 text of a 64-bit identifier.
pub fn decode_id(s: &str) -> (r: Result<u64, IdFormatError>)
    ensures
        r is Ok <==> decodes_to_id(s@),
        r matches Ok(v) ==> v == b62_value(s@),
        r matches Err(e) ==> (e == IdFormatError::NotBase62 <==> !is_b62_text(s@)),
{
    match base62_decode(s) {
        None => {
            if s.unicode_len() == 0 {
                Err(IdFormatError::NotBase62)
            } else {
                let n = s.unicode_len();
                let mut i: usize = 0;
                while i < n
                    invariant
                        n == s@.len(),
                        i <= n,
                        forall|j: int| 0 <= j < i ==> b62_digit(#[trigger] s@[j]) >= 0,
                    decreases n - i,
                {
                    let c = s.get_char(i);
                    if !is_b62_char(c) {
                        return Err(IdFormatError::NotBase62);
                    }
                    i += 1;
                }
                Err(IdFormatError::TooLarge)
            }
        },
        Some(v) => {
            if v <= u64::MAX as u128 {
                Ok(v as u64)
            } else {
                Err(IdFormatError::TooLarge)
            }
        },
    }
}

/// Whether `c` is a base-62 digit.
pub fn is_b62_char(c: char) -> (r: bool)
    ensures
        r == (b62_digit(c) >= 0),
{
    ('0' <= c && c <= '9') || ('A' <= c && c <= 'Z') || ('a' <= c && c <= 'z')
}

/// Decoding the text of an encoded identifier gives the identifier back, and every
/// encoded identifier is a valid identifier text.
pub proof fn lemma_id_round_trip(n: u64)
    ensures
        decodes_to_id(b62_text(n as nat)),
        b62_value(b62_text(n as nat)) == n,
{
    lemma_b62_text(n as nat);
}

/// An identifier of the application model.
#[derive(Debug, Clone, Copy, PartialEq, Eq, Hash)]
pub struct AppId(pub u64);

/// An identifier of a container within an application.
#[derive(Debug, Clone, Copy, PartialEq, Eq, Hash)]
pub struct ContainerId(pub u64);

impl AppId {
    /// The base-62 text of this identifier.
    pub fn encode(&self) -> (r: String)
        ensures
            r@ == b62_text(self.0 as nat),
    {
        encode_id(self.0)
    }

    /// Parses the base-62 text of an identifier.
    pub fn decode(input: &str) -> (r: Result<AppId, IdFormatError>)
        ensures
            r is Ok <==> decodes_to_id(input@),
            r matches Ok(id) ==> id.0 == b62_value(input@),
    {
        match decode_id(input) {
            Ok(v) => Ok(AppId(v)),
            Err(e) => Err(e),
        }
    }
}

impl ContainerId {
    /// The base-62 text of this identifier.
    pub fn encode(&self) -> (r: String)
        ensures
            r@ == b62_text(self.0 as nat),
    {
        encode_id(self.0)
    }

    /// Parses the base-62 text of an identifier.
    pub fn decode(input: &str) -> (r: Result<ContainerId, IdFormatError>)
        ensures
            r is Ok <==> decodes_to_id(input@),
            r matches Ok(id) ==> id.0 == b62_value(input@),
    {
        match decode_id(input) {
            Ok(v) => Ok(ContainerId(v)),
            Err(e) => Err(e),
        }
    }
}

/// Relies on rand::random: a uniformly drawn 64-bit value; nothing is known of it.
#[verifier::external_body]
pub(crate) fn random_u64() -> (r: u64) {
    rand::random::<u64>()
}

} // verus!
