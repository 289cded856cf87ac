//! Task identifiers: a 128-bit value written in the hyphenated hexadecimal
//! form of a UUID.

use vstd::arithmetic::div_mod::{lemma_div_denominator, lemma_fundamental_div_mod};
use vstd::prelude::*;

verus! {

/// `16^k`.
pub open spec fn pow16(k: nat) -> nat
    decreases k,
{
    if k == 0 {
        1
    } else {
        16 * pow16((k - 1) as nat)
    }
}

/// The lowercase hexadecimal digit for `d < 16`.
pub open spec fn hex_char(d: nat) -> char {
    if d < 10 {
        (48 + d) as char
    } else {
        (87 + d) as char
    }
}

/// Whether `c` is one of `0-9`, `a-f`.
pub open spec fn is_lower_hex(c: char) -> bool {
    ('0' <= c && c <= '9') || ('a' <= c && c <= 'f')
}

/// The value of a hexadecimal digit.
pub open spec fn hex_val(c: char) -> nat {
    if '0' <= c && c <= '9' {
        (c as int - 48) as nat
    } else if 'a' <= c && c <= 'f' {
        (c as int - 87) as nat
    } else if 'A' <= c && c <= 'F' {
        (c as int - 55) as nat
    } else {
        0
    }
}

/// The number that a sequence of hexadecimal digits spells, most significant first.
pub open spec fn hex_value(s: Seq<char>) -> nat
    decreases s.len(),
{
    if s.len() == 0 {
        0
    } else {
        hex_value(s.drop_last()) * 16 + hex_val(s.last())
    }
}

/// The `i`-th of the 32 hexadecimal digits of `n`, most significant first.
pub open spec fn nibble(n: u128, i: int) -> nat {
    ((n as nat) / pow16((31 - i) as nat)) % 16
}

/// The 32 lowercase hexadecimal digits of `n`.
pub open spec fn hex_digits(n: u128) -> Seq<char> {
    Seq::new(32, |i: int| hex_char(nibble(n, i)))
}

/// Whether `i` is one of the four hyphen positions of the hyphenated form.
pub open spec fn is_hyphen_pos(i: int) -> bool {
    i == 8 || i == 13 || i == 18 || i == 23
}

/// The hyphenated text of `n`: groups of 8, 4, 4, 4 and 12 lowercase digits.
pub open spec fn uuid_text(n: u128) -> Seq<char> {
    let d = hex_digits(n);
    d.subrange(0, 8) + seq!['-'] + d.subrange(8, 12) + seq!['-'] + d.subrange(12, 16) + seq!['-']
        + d.subrange(16, 20) + seq!['-'] + d.subrange(20, 32)
}

/// Whether `s` has the hyphenated shape with lowercase digits.
pub open spec fn is_hyphenated_lower(s: Seq<char>) -> bool {
    &&& s.len() == 36
    &&& forall|i: int|
        0 <= i < 36 ==> if is_hyphen_pos(i) {
            s[i] == '-'
        } else {
            is_lower_hex(#[trigger] s[i])
        }
}

/// The 32 digits of a hyphenated text, hyphens left out.
pub open spec fn hyphenated_digits(s: Seq<char>) -> Seq<char> {
    s.subrange(0, 8) + s.subrange(9, 13) + s.subrange(14, 18) + s.subrange(19, 23) + s.subrange(
        24,
        36,
    )
}

/// What `uuid::Uuid::parse_str` reads from a text, as a 128-bit value.
pub uninterp spec fn parsed_uuid(s: Seq<char>) -> Option<u128>;

/// The identifier that a text stands for: on the hyphenated lowercase form
/// the number its digits spell, else whatever `uuid::Uuid::parse_str` reads.
pub open spec fn uuid_of_text(s: Seq<char>) -> Option<u128> {
    if is_hyphenated_lower(s) {
        Some(hex_value(hyphenated_digits(s)) as u128)
    } else {
        parsed_uuid(s)
    }
}

/// An identifier of a download task.
#[derive(Clone, Copy, Debug, PartialEq, Eq, Structural, Hash)]
pub struct TaskId {
    pub value: u128,
}

/// Relies on `uuid::Uuid::new_v4`: a random identifier, of which nothing is promised.
#[verifier::external_body]
fn random_uuid() -> (r: u128) {
    uuid::Uuid::new_v4().as_u128()
}

/// Relies on `uuid::Uuid`'s `Display`: the hyphenated form, lowercase digits.
#[verifier::external_body]
fn format_uuid(n: u128) -> (r: String)
    ensures
        r@ == uuid_text(n),
{
    uuid::Uuid::from_u128(n).to_string()
}

/// Relies on `uuid::Uuid::parse_str`: a hyphenated text of hexadecimal digits
/// parses to the number that the digits spell.
#[verifier::external_body]
fn parse_uuid(s: &str) -> (r: Option<u128>)
    ensures
        r == parsed_uuid(s@),
        is_hyphenated_lower(s@) ==> r == Some(hex_value(hyphenated_digits(s@)) as u128),
{
    match uuid::Uuid::parse_str(s) {
        Ok(u) => Some(u.as_u128()),
        Err(_) => None,
    }
}

impl TaskId {
    /// A fresh random identifier.
    pub fn new() -> (r: TaskId) {
        TaskId { value: random_uuid() }
    }

    /// The identifier with the given value.
    pub fn from_u128(value: u128) -> (r: TaskId)
        ensures
            r.value == value,
    {
        TaskId { value }
    }

    /// The hyphenated text of the identifier.
    pub fn to_string(&self) -> (r: String)
        ensures
            r@ == uuid_text(self.value),
    {
        format_uuid(self.value)
    }

    /// Reads an identifier from its text; `None` where the text is no UUID.
    pub fn from_string(s: &str) -> (r: Option<TaskId>)
        ensures
            r matches Some(id) ==> uuid_of_text(s@) == Some(id.value),
            r is None ==> uuid_of_text(s@) is None,
    {
        match parse_uuid(s) {
            Some(v) => Some(TaskId { value: v }),
            None => None,
        }
    }
}

proof fn lemma_hex_prefix(n: u128, k: int)
    requires
        0 <= k <= 32,
    ensures
        hex_value(hex_digits(n).take(k)) == (n as nat) / pow16((32 - k) as nat),
    decreases k,
{
    if k == 0 {
        lemma_pow16_32();
        assert(hex_digits(n).take(0) =~= Seq::<char>::empty());
        assert((n as nat) / pow16(32) == 0) by (nonlinear_arith)
            requires
                (n as nat) < pow16(32),
        ;
    } else {
        lemma_hex_prefix(n, k - 1);
        let s = hex_digits(n).take(k);
        assert(s.drop_last() =~= hex_digits(n).take(k - 1));
        let p = pow16((32 - k) as nat);
        lemma_pow16_pos((32 - k) as nat);
        let d = nibble(n, k - 1);
        assert(pow16((32 - (k - 1)) as nat) == 16 * p);
        lemma_hex_char_val(d);
        let x = (n as nat) / p;
        lemma_div_denominator(n as int, p as int, 16);
        assert((n as nat) / (16 * p) == x / 16) by {
            assert(p * 16 == 16 * p) by (nonlinear_arith);
        }
        lemma_fundamental_div_mod(x as int, 16);
        assert(d == ((n as nat) / p) % 16);
    }
}

proof fn lemma_pow16_pos(k: nat)
    ensures
        pow16(k) > 0,
    decreases k,
{
    if k > 0 {
        lemma_pow16_pos((k - 1) as nat);
    }
}

proof fn lemma_pow16_32()
    ensures
        pow16(32) == 0x1_0000_0000_0000_0000_0000_0000_0000_0000,
{
    reveal_with_fuel(pow16, 33);
}

proof fn lemma_hex_char_val(d: nat)
    requires
        d < 16,
    ensures
        hex_val(hex_char(d)) == d,
        is_lower_hex(hex_char(d)),
{
}

/// The hyphenated text of an identifier reads back as that identifier.
pub proof fn lemma_uuid_text_parses(n: u128)
    ensures
        is_hyphenated_lower(uuid_text(n)),
        hex_value(hyphenated_digits(uuid_text(n))) == n,
        uuid_of_text(uuid_text(n)) == Some(n),
{
    let t = uuid_text(n);
    let d = hex_digits(n);
    assert forall|i: int| 0 <= i < 32 implies is_lower_hex(#[trigger] d[i]) by {
        lemma_hex_char_val(nibble(n, i));
    }
    assert(hyphenated_digits(t) =~= d);
    assert(d.take(32) =~= d);
    lemma_hex_prefix(n, 32);
    assert(pow16(0) == 1);
    assert(hex_value(d) == (n as nat) / 1);
    assert((n as nat) / 1 == n as nat);
}

} // verus!
