//! Request identifiers: random UUIDs, and short ids from a counter.

use vstd::prelude::*;
use crate::text::{digit_char, hex_padded, push_hex_padded};
use vstd::arithmetic::power::pow;

verus! {

/// Whether `c` is a lowercase hexadecimal digit.
pub open spec fn is_lower_hex(c: char) -> bool {
    ('0' <= c && c <= '9') || ('a' <= c && c <= 'f')
}

/// The shape of a version-4 UUID's text: 36 characters, hyphens at 8, 13,
/// 18 and 23, the version digit `4` at 14, lowercase hex digits elsewhere.
pub open spec fn uuid_v4_shape(t: Seq<char>) -> bool {
    &&& t.len() == 36
    &&& forall|i: int|
        0 <= i < 36 ==> if i == 8 || i == 13 || i == 18 || i == 23 {
            #[trigger] t[i] == '-'
        } else {
            is_lower_hex(t[i])
        }
    &&& t[14] == '4'
}

/// Relies on `uuid::Uuid::new_v4` (random bytes with the version set to 4)
/// and its hyphenated lowercase text.
#[verifier::external_body]
fn uuid_text() -> (r: String)
    ensures
        uuid_v4_shape(r@),
{
    uuid::Uuid::new_v4().to_string()
}

/// A new random request id: a version-4 UUID in its 36-character form.
pub fn generate_request_id() -> (r: String)
    ensures
        uuid_v4_shape(r@),
{
    uuid_text()
}

/// The short id of counter value `count`: `req-` and sixteen lowercase hex
/// digits.
pub open spec fn short_id_text(count: u64) -> Seq<char> {
    "req-"@ + hex_padded(count as nat, 16)
}

/// The short request id for counter value `count`: `req-` followed by the
/// counter as sixteen zero-padded lowercase hex digits.
pub fn generate_short_request_id(count: u64) -> (r: String)
    ensures
        r@ == short_id_text(count),
{
    let mut s = String::from_str("req-");
    push_hex_padded(&mut s, count, 16);
    s
}

/// Different digit values below sixteen have different characters.
proof fn lemma_digit_char_injective(x: nat, y: nat)
    requires
        x < 16,
        y < 16,
        digit_char(x) == digit_char(y),
    ensures
        x == y,
{
}

/// Equal zero-padded hex texts of width `w` mean equal numbers modulo `16^w`.
proof fn lemma_hex_padded_injective(a: nat, b: nat, w: nat)
    requires
        hex_padded(a, w) == hex_padded(b, w),
    ensures
        a % (pow(16, w) as nat) == b % (pow(16, w) as nat),
    decreases w,
{
    reveal(pow);
    if w > 0 {
        let ha = hex_padded(a, w);
        let hb = hex_padded(b, w);
        assert(ha.last() == digit_char(a % 16));
        assert(hb.last() == digit_char(b % 16));
        lemma_digit_char_injective(a % 16, b % 16);
        assert(ha.drop_last() == hex_padded(a / 16, (w - 1) as nat));
        assert(hb.drop_last() == hex_padded(b / 16, (w - 1) as nat));
        lemma_hex_padded_injective(a / 16, b / 16, (w - 1) as nat);
        let p = pow(16, (w - 1) as nat);
        vstd::arithmetic::power::lemma_pow_positive(16, (w - 1) as nat);
        vstd::arithmetic::div_mod::lemma_breakdown(a as int, 16, p);
        vstd::arithmetic::div_mod::lemma_breakdown(b as int, 16, p);
    }
}

/// Different counter values give different short ids, so ids drawn from a
/// counter that only grows never repeat.
pub proof fn law_short_ids_distinct(a: u64, b: u64)
    requires
        a != b,
    ensures
        short_id_text(a) != short_id_text(b),
{
    if short_id_text(a) == short_id_text(b) {
        reveal_strlit("req-");
        assert(short_id_text(a).skip(4) =~= hex_padded(a as nat, 16));
        assert(short_id_text(b).skip(4) =~= hex_padded(b as nat, 16));
        lemma_hex_padded_injective(a as nat, b as nat, 16);
        reveal_with_fuel(pow, 17);
        assert(pow(16, 16) == 0x1_0000_0000_0000_0000);
        vstd::arithmetic::div_mod::lemma_small_mod(a as nat, 0x1_0000_0000_0000_0000);
        vstd::arithmetic::div_mod::lemma_small_mod(b as nat, 0x1_0000_0000_0000_0000);
    }
}

/// A request id.
#[derive(Clone, Debug)]
pub struct RequestId(String);

impl RequestId {
    /// The text of the id.
    pub closed spec fn text(&self) -> Seq<char> {
        self.0@
    }

    /// A new random id.
    pub fn new() -> (r: RequestId)
        ensures
            uuid_v4_shape(r.text()),
    {
        RequestId(generate_request_id())
    }

    /// The short id for counter value `count`.
    pub fn short(count: u64) -> (r: RequestId)
        ensures
            r.text() == short_id_text(count),
    {
        RequestId(generate_short_request_id(count))
    }

    /// An id with the given text (from a header, say).
    pub fn from_string(s: &str) -> (r: RequestId)
        ensures
            r.text() == s@,
    {
        RequestId(String::from_str(s))
    }

    /// The text of the id.
    pub fn as_str(&self) -> (r: &str)
        ensures
            r@ == self.text(),
    {
        self.0.as_str()
    }

    /// The text of the id, as a new string.
    pub fn to_string(&self) -> (r: String)
        ensures
            r@ == self.text(),
    {
        self.0.clone()
    }
}

} // verus!
