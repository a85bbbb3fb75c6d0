use vstd::prelude::*;
use vstd::string::*;

use crate::ids::{
    hex_digit, id_from_text, id_to_text, lemma_hex_digit_injective, lemma_uuid_text_injective,
    same_text, uuid_text,
};

verus! {

/// The decimal digits of a natural number, without leading zeros.
pub open spec fn digits_text(n: nat) -> Seq<char>
    decreases n,
{
    if n < 10 {
        seq![hex_digit(n as int)]
    } else {
        digits_text(n / 10) + seq![hex_digit((n % 10) as int)]
    }
}

/// The decimal text of a signed integer: a minus sign for negative numbers, then the digits.
pub open spec fn decimal_text(n: i64) -> Seq<char> {
    if n < 0 {
        seq!['-'] + digits_text((-n) as nat)
    } else {
        digits_text(n as nat)
    }
}

proof fn lemma_digits_text_len(n: nat)
    ensures
        digits_text(n).len() >= 1,
        n < 10 <==> digits_text(n).len() == 1,
    decreases n,
{
    if n >= 10 {
        lemma_digits_text_len(n / 10);
    }
}

proof fn lemma_digits_not_minus(n: nat)
    ensures
        digits_text(n)[0] != '-',
    decreases n,
{
    lemma_digits_text_len(n);
    if n < 10 {
        lemma_hex_digit_not_minus(n as int);
    } else {
        lemma_digits_text_len(n / 10);
        lemma_digits_not_minus(n / 10);
        assert(digits_text(n)[0] == digits_text(n / 10)[0]);
    }
}

proof fn lemma_hex_digit_not_minus(d: int)
    requires
        0 <= d < 16,
    ensures
        hex_digit(d) != '-',
{
    let digits = seq!['0', '1', '2', '3', '4', '5', '6', '7', '8', '9', 'a', 'b', 'c', 'd', 'e', 'f'];
    assert(digits[0] == '0' && digits[1] == '1' && digits[2] == '2' && digits[3] == '3');
    assert(digits[4] == '4' && digits[5] == '5' && digits[6] == '6' && digits[7] == '7');
    assert(digits[8] == '8' && digits[9] == '9' && digits[10] == 'a' && digits[11] == 'b');
    assert(digits[12] == 'c' && digits[13] == 'd' && digits[14] == 'e' && digits[15] == 'f');
}

proof fn lemma_digits_text_injective(a: nat, b: nat)
    requires
        digits_text(a) == digits_text(b),
    ensures
        a == b,
    decreases a,
{
    lemma_digits_text_len(a);
    lemma_digits_text_len(b);
    if a < 10 {
        assert(digits_text(a)[0] == hex_digit(a as int));
        assert(digits_text(b)[0] == hex_digit(b as int));
        lemma_hex_digit_injective(a as int, b as int);
    } else {
        let ta = digits_text(a);
        let tb = digits_text(b);
        assert(ta[ta.len() - 1] == hex_digit((a % 10) as int));
        assert(tb[tb.len() - 1] == hex_digit((b % 10) as int));
        lemma_hex_digit_injective((a % 10) as int, (b % 10) as int);
        assert(ta.drop_last() =~= digits_text(a / 10));
        assert(tb.drop_last() =~= digits_text(b / 10));
        lemma_digits_text_injective(a / 10, b / 10);
    }
}

/// Different integers have different decimal texts.
pub proof fn lemma_decimal_text_injective(a: i64, b: i64)
    requires
        decimal_text(a) == decimal_text(b),
    ensures
        a == b,
{
    if a < 0 && b < 0 {
        assert(decimal_text(a).drop_first() =~= digits_text((-a) as nat));
        assert(decimal_text(b).drop_first() =~= digits_text((-b) as nat));
        lemma_digits_text_injective((-a) as nat, (-b) as nat);
    } else if a < 0 {
        lemma_digits_not_minus(b as nat);
    } else if b < 0 {
        lemma_digits_not_minus(a as nat);
    } else {
        lemma_digits_text_injective(a as nat, b as nat);
    }
}

/// Relies on `i64`'s `Display` (through `ToString`), which writes the form above.
#[verifier::external_body]
fn decimal(n: i64) -> (r: String)
    ensures
        r@ == decimal_text(n),
{
    n.to_string()
}

/// Relies on `i64`'s `FromStr`, which reads the decimal text of every `i64` back as that number.
#[verifier::external_body]
fn try_parse_decimal(s: &str) -> (r: Option<i64>)
    ensures
        forall|n: i64| s@ == decimal_text(n) ==> r == Some(n),
{
    s.parse::<i64>().ok()
}

/// Reads an integer from its canonical decimal text; every other text is refused.
pub fn decimal_from_text(s: &str) -> (r: Option<i64>)
    ensures
        forall|n: i64| (r == Some(n)) == (s@ == decimal_text(n)),
        r is None ==> forall|n: i64| s@ != decimal_text(n),
{
    match try_parse_decimal(s) {
        None => None,
        Some(n) => {
            let canonical = decimal(n);
            if same_text(canonical.as_str(), s) {
                Some(n)
            } else {
                None
            }
        },
    }
}

/// The fixed text before the subject.
pub open spec fn claims_head() -> Seq<char> {
    "{\"user_id\":\""@
}

/// The fixed text between the subject and the expiry.
pub open spec fn claims_middle() -> Seq<char> {
    "\",\"exp\":"@
}

/// The fixed text after the expiry.
pub open spec fn claims_tail() -> Seq<char> {
    "}"@
}

/// The canonical claims of a token: the subject and the expiry (seconds since the epoch), as
/// a JSON object with no white space, subject first.
pub open spec fn claims_text(user_id: u128, exp: i64) -> Seq<char> {
    claims_head() + uuid_text(user_id) + claims_middle() + decimal_text(exp) + claims_tail()
}

/// The subject and expiry that a claims text holds, if it is canonical.
pub open spec fn claims_of(text: Seq<char>) -> Option<(u128, i64)> {
    if exists|p: (u128, i64)| text == claims_text(p.0, p.1) {
        let p = choose|p: (u128, i64)| text == claims_text(p.0, p.1);
        Some(p)
    } else {
        None
    }
}

proof fn lemma_claims_of(text: Seq<char>, r: Option<(u128, i64)>)
    requires
        forall|u: u128, e: i64| (r == Some((u, e))) == (text == claims_text(u, e)),
    ensures
        r == claims_of(text),
{
    if exists|p: (u128, i64)| text == claims_text(p.0, p.1) {
        let p = choose|p: (u128, i64)| text == claims_text(p.0, p.1);
        assert(r == Some((p.0, p.1)));
    } else if r is Some {
        let (u, e) = r.unwrap();
        assert(text == claims_text(u, e));
    }
}

/// The claims written for a subject and an expiry read back as that subject and expiry.
pub proof fn lemma_claims_round_trip(user_id: u128, exp: i64)
    ensures
        claims_of(claims_text(user_id, exp)) == Some((user_id, exp)),
{
    lemma_literal_lengths();
    let t = claims_text(user_id, exp);
    assert forall|u: u128, e: i64| t == claims_text(u, e) implies u == user_id && e == exp by {
        let c = claims_text(u, e);
        assert(c.subrange(12, 48) =~= uuid_text(u));
        assert(t.subrange(12, 48) =~= uuid_text(user_id));
        lemma_uuid_text_injective(u, user_id);
        assert(c.subrange(56, c.len() - 1) =~= decimal_text(e));
        assert(t.subrange(56, t.len() - 1) =~= decimal_text(exp));
        lemma_decimal_text_injective(e, exp);
    }
    assert(t == claims_text((user_id, exp).0, (user_id, exp).1));
}

proof fn lemma_literal_lengths()
    ensures
        claims_head().len() == 12,
        claims_middle().len() == 8,
        claims_tail().len() == 1,
{
    reveal_strlit("{\"user_id\":\"");
    reveal_strlit("\",\"exp\":");
    reveal_strlit("}");
}

/// Writes the canonical claims of a subject and an expiry.
pub fn encode_claims(user_id: u128, exp: i64) -> (r: String)
    ensures
        r@ == claims_text(user_id, exp),
{
    let mut out = "{\"user_id\":\"".to_owned();
    let id = id_to_text(user_id);
    out.append(id.as_str());
    out.append("\",\"exp\":");
    let n = decimal(exp);
    out.append(n.as_str());
    out.append("}");
    out
}

/// Reads canonical claims; every text that `encode_claims` does not write is refused.
pub fn decode_claims(text: &str) -> (r: Option<(u128, i64)>)
    ensures
        r == claims_of(text@),
        forall|u: u128, e: i64| (r == Some((u, e))) == (text@ == claims_text(u, e)),
{
    proof {
        lemma_literal_lengths();
    }
    let n = text.unicode_len();
    if n < 58 {
        proof {
            assert forall|u: u128, e: i64| text@ != claims_text(u, e) by {
                if text@ == claims_text(u, e) {
                    assert(claims_text(u, e).len() >= 57);
                }
            }
            lemma_claims_of(text@, None);
        }
        return None;
    }
    let head = text.substring_char(0, 12);
    let id_part = text.substring_char(12, 48);
    let middle = text.substring_char(48, 56);
    let exp_part = text.substring_char(56, n - 1);
    let tail = text.substring_char(n - 1, n);
    let shape_ok = same_text(head, "{\"user_id\":\"") && same_text(middle, "\",\"exp\":")
        && same_text(tail, "}");
    let ghost t = text@;
    proof {
        assert forall|u: u128, e: i64| text@ == claims_text(u, e) implies {
            &&& head@ == claims_head()
            &&& id_part@ == uuid_text(u)
            &&& middle@ == claims_middle()
            &&& exp_part@ == decimal_text(e)
            &&& tail@ == claims_tail()
        } by {
            let c = claims_text(u, e);
            assert(c.subrange(0, 12) =~= claims_head());
            assert(c.subrange(12, 48) =~= uuid_text(u));
            assert(c.subrange(48, 56) =~= claims_middle());
            assert(c.subrange(56, n - 1) =~= decimal_text(e));
            assert(c.subrange(n - 1, n as int) =~= claims_tail());
        }
    }
    if !shape_ok {
        proof {
            lemma_claims_of(t, None);
        }
        return None;
    }
    let user_id = id_from_text(id_part);
    let exp = decimal_from_text(exp_part);
    match (user_id, exp) {
        (Some(u), Some(e)) => {
            proof {
                assert(t =~= head@ + id_part@ + middle@ + exp_part@ + tail@);
                assert(t == claims_text(u, e));
                assert forall|u2: u128, e2: i64| t == claims_text(u2, e2) implies u2 == u && e2
                    == e by {
                    assert(id_part@ == uuid_text(u2));
                    assert(exp_part@ == decimal_text(e2));
                }
            }
            proof {
                lemma_claims_of(t, Some((u, e)));
            }
            Some((u, e))
        },
        _ => {
            proof {
                lemma_claims_of(t, None);
            }
            None
        },
    }
}

} // verus!
