use vstd::prelude::*;
use vstd::arithmetic::div_mod::{lemma_div_basics, lemma_div_denominator, lemma_fundamental_div_mod};
use vstd::arithmetic::power::{lemma_pow_adds, lemma_pow_positive, pow};
use vstd::string::*;

verus! {

/// The lowercase hexadecimal digit of a value below 16.
pub open spec fn hex_digit(d: int) -> char {
    seq!['0', '1', '2', '3', '4', '5', '6', '7', '8', '9', 'a', 'b', 'c', 'd', 'e', 'f'][d]
}

/// The `k`-th of the 32 hexadecimal digits of an identifier, most significant first.
pub open spec fn nibble(id: u128, k: int) -> int {
    (id as int / pow(16, (31 - k) as nat)) % 16
}

/// Whether position `i` of a hyphenated identifier holds a hyphen.
pub open spec fn is_hyphen_position(i: int) -> bool {
    i == 8 || i == 13 || i == 18 || i == 23
}

/// Which digit stands at position `i` (not a hyphen) of a hyphenated identifier.
pub open spec fn digit_at_position(i: int) -> int {
    if i < 8 {
        i
    } else if i < 13 {
        i - 1
    } else if i < 18 {
        i - 2
    } else if i < 23 {
        i - 3
    } else {
        i - 4
    }
}

/// The hyphenated text of a 128-bit identifier: 32 lowercase hexadecimal digits in groups of
/// 8, 4, 4, 4 and 12, joined by hyphens.
pub open spec fn uuid_text(id: u128) -> Seq<char> {
    Seq::new(
        36,
        |i: int|
            if is_hyphen_position(i) {
                '-'
            } else {
                hex_digit(nibble(id, digit_at_position(i)))
            },
    )
}

/// Different values below 16 have different digits.
pub proof fn lemma_hex_digit_injective(d1: int, d2: int)
    requires
        0 <= d1 < 16,
        0 <= d2 < 16,
        hex_digit(d1) == hex_digit(d2),
    ensures
        d1 == d2,
{
    let digits = seq!['0', '1', '2', '3', '4', '5', '6', '7', '8', '9', 'a', 'b', 'c', 'd', 'e', 'f'];
    assert(digits[0] == '0' && digits[1] == '1' && digits[2] == '2' && digits[3] == '3');
    assert(digits[4] == '4' && digits[5] == '5' && digits[6] == '6' && digits[7] == '7');
    assert(digits[8] == '8' && digits[9] == '9' && digits[10] == 'a' && digits[11] == 'b');
    assert(digits[12] == 'c' && digits[13] == 'd' && digits[14] == 'e' && digits[15] == 'f');
}

/// The value of the first `k` hexadecimal digits of an identifier.
spec fn leading_value(id: u128, k: nat) -> int {
    id as int / pow(16, (32 - k) as nat)
}

proof fn lemma_leading_value_step(id: u128, k: nat)
    requires
        k < 32,
    ensures
        leading_value(id, k + 1) == leading_value(id, k) * 16 + nibble(id, k as int),
{
    let p = pow(16, (31 - k) as nat);
    lemma_pow_positive(16, (31 - k) as nat);
    lemma_pow_adds(16, (31 - k) as nat, 1);
    vstd::arithmetic::power::lemma_pow1(16);
    assert((32 - k) as nat == ((31 - k) as nat + 1) as nat);
    assert(pow(16, (32 - k) as nat) == p * 16);
    lemma_div_denominator(id as int, p, 16);
    let n = id as int / p;
    lemma_fundamental_div_mod(n, 16);
    assert(leading_value(id, k + 1) == n);
    assert(leading_value(id, k) == n / 16);
}

proof fn lemma_leading_value_ends(id: u128)
    ensures
        leading_value(id, 0) == 0,
        leading_value(id, 32) == id,
{
    vstd::arithmetic::power::lemma_pow0(16);
    lemma_div_basics(id as int);
    assert(pow(16, 32) == 0x1_0000_0000_0000_0000_0000_0000_0000_0000) by {
        reveal_with_fuel(pow, 33);
    }
    vstd::arithmetic::div_mod::lemma_basic_div(id as int, pow(16, 32));
}

proof fn lemma_leading_values_agree(a: u128, b: u128, k: nat)
    requires
        k <= 32,
        forall|j: int| 0 <= j < 32 ==> nibble(a, j) == nibble(b, j),
    ensures
        leading_value(a, k) == leading_value(b, k),
    decreases k,
{
    if k == 0 {
        lemma_leading_value_ends(a);
        lemma_leading_value_ends(b);
    } else {
        lemma_leading_values_agree(a, b, (k - 1) as nat);
        lemma_leading_value_step(a, (k - 1) as nat);
        lemma_leading_value_step(b, (k - 1) as nat);
    }
}

/// Different identifiers have different texts.
pub proof fn lemma_uuid_text_injective(a: u128, b: u128)
    requires
        uuid_text(a) == uuid_text(b),
    ensures
        a == b,
{
    assert forall|k: int| 0 <= k < 32 implies nibble(a, k) == nibble(b, k) by {
        let i = if k < 8 {
            k
        } else if k < 12 {
            k + 1
        } else if k < 16 {
            k + 2
        } else if k < 20 {
            k + 3
        } else {
            k + 4
        };
        assert(!is_hyphen_position(i) && digit_at_position(i) == k);
        assert(uuid_text(a)[i] == uuid_text(b)[i]);
        assert(uuid_text(a)[i] == hex_digit(nibble(a, k)));
        assert(uuid_text(b)[i] == hex_digit(nibble(b, k)));
        lemma_pow_positive(16, (31 - k) as nat);
        lemma_hex_digit_injective(nibble(a, k), nibble(b, k));
    }
    lemma_leading_values_agree(a, b, 32);
    lemma_leading_value_ends(a);
    lemma_leading_value_ends(b);
}

/// Relies on uuid's `Uuid::hyphenated` display, which writes the form above.
#[verifier::external_body]
fn hyphenated(id: u128) -> (r: String)
    ensures
        r@ == uuid_text(id),
{
    uuid::Uuid::from_u128(id).hyphenated().to_string()
}

/// Relies on uuid's `Uuid::try_parse`, which reads the hyphenated text of every id back as
/// that id.
#[verifier::external_body]
fn try_parse_uuid(s: &str) -> (r: Option<u128>)
    ensures
        forall|id: u128| s@ == uuid_text(id) ==> r == Some(id),
{
    uuid::Uuid::try_parse(s).ok().map(|u| u.as_u128())
}

/// Whether two texts hold the same characters.
pub fn same_text(a: &str, b: &str) -> (r: bool)
    ensures
        r == (a@ == b@),
{
    let a_owned = a.to_owned();
    let b_owned = b.to_owned();
    a_owned == b_owned
}

/// The canonical text of an identifier, as it is written into tokens and cookies.
pub fn id_to_text(id: u128) -> (r: String)
    ensures
        r@ == uuid_text(id),
        r@.len() == 36,
{
    hyphenated(id)
}

/// Reads an identifier from its canonical text; every other text is refused.
pub fn id_from_text(s: &str) -> (r: Option<u128>)
    ensures
        forall|id: u128| (r == Some(id)) == (s@ == uuid_text(id)),
        r is None ==> forall|id: u128| s@ != uuid_text(id),
{
    match try_parse_uuid(s) {
        None => None,
        Some(id) => {
            let canonical = hyphenated(id);
            if same_text(canonical.as_str(), s) {
                Some(id)
            } else {
                None
            }
        },
    }
}

} // verus!
