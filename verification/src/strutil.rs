//! String helpers shared by the codec and the validator: verified string
//! equality, the UTF-8 decoding step of the wire decoder, ASCII facts, and
//! decimal rendering of the integers that go into signing strings and block
//! identifiers.

use vstd::prelude::*;

use crate::hex::spec_hex_char;

verus! {

/// Compares two string slices; byte-for-byte equality of the UTF-8
/// encodings coincides with equality of the character views.
pub fn str_eq(a: &str, b: &str) -> (r: bool)
    ensures
        r == (a@ == b@),
{
    let ab = a.as_bytes();
    let bb = b.as_bytes();
    proof {
        vstd::utf8::encode_utf8_decode_utf8(a@);
        vstd::utf8::encode_utf8_decode_utf8(b@);
    }
    if ab.len() != bb.len() {
        return false;
    }
    let n = ab.len();
    for i in 0..n
        invariant
            n == ab@.len() == bb@.len(),
            ab@ == vstd::utf8::encode_utf8(a@),
            bb@ == vstd::utf8::encode_utf8(b@),
            vstd::utf8::decode_utf8(ab@) == a@,
            vstd::utf8::decode_utf8(bb@) == b@,
            forall|j: int| 0 <= j < i ==> ab@[j] == bb@[j],
    {
        if ab[i] != bb[i] {
            return false;
        }
    }
    proof {
        assert(ab@ =~= bb@);
    }
    true
}

/// The decimal rendering of a natural number, most significant digit first.
pub open spec fn spec_dec_of(n: nat) -> Seq<char>
    decreases n,
{
    if n < 10 {
        seq![spec_hex_char(n as u8)]
    } else {
        spec_dec_of(n / 10) + seq![spec_hex_char((n % 10) as u8)]
    }
}

/// The decimal rendering of an integer, with a leading minus sign when
/// negative.
pub open spec fn spec_dec_of_int(x: int) -> Seq<char> {
    if x < 0 {
        seq!['-'] + spec_dec_of((-x) as nat)
    } else {
        spec_dec_of(x as nat)
    }
}

/// The one-character string of a decimal digit.
fn dec_digit_str(d: u8) -> (r: &'static str)
    requires
        d < 10,
    ensures
        r@ == seq![spec_hex_char(d)],
{
    proof {
        reveal_strlit("0");
        reveal_strlit("1");
        reveal_strlit("2");
        reveal_strlit("3");
        reveal_strlit("4");
        reveal_strlit("5");
        reveal_strlit("6");
        reveal_strlit("7");
        reveal_strlit("8");
        reveal_strlit("9");
    }
    let r = match d {
        0 => "0",
        1 => "1",
        2 => "2",
        3 => "3",
        4 => "4",
        5 => "5",
        6 => "6",
        7 => "7",
        8 => "8",
        _ => "9",
    };
    proof {
        assert(r@ =~= seq![spec_hex_char(d)]);
    }
    r
}

/// Renders a `u64` in decimal.
pub fn u64_to_dec(n: u64) -> (s: String)
    ensures
        s@ == spec_dec_of(n as nat),
    decreases n,
{
    if n < 10 {
        String::from_str(dec_digit_str(n as u8))
    } else {
        proof {
            assert(n / 10 < n) by (nonlinear_arith)
                requires
                    n >= 10,
            ;
        }
        let mut s = u64_to_dec(n / 10);
        s.append(dec_digit_str((n % 10) as u8));
        s
    }
}

/// Renders an `i64` in decimal, with a leading minus sign when negative.
pub fn i64_to_dec(x: i64) -> (s: String)
    ensures
        s@ == spec_dec_of_int(x as int),
{
    if x < 0 {
        let m = (-(x as i128)) as u64;
        let mut s = String::from_str("-");
        proof {
            reveal_strlit("-");
            assert(s@ =~= seq!['-']);
        }
        s.append(u64_to_dec(m).as_str());
        s
    } else {
        u64_to_dec(x as u64)
    }
}

/// Relies on std's `String::from_utf8`: it succeeds exactly on valid
/// UTF-8 input and returns the decoded characters.
#[verifier::external_body]
pub(crate) fn string_from_utf8(v: Vec<u8>) -> (r: Option<String>)
    ensures
        (r is Some) == vstd::utf8::valid_utf8(v@),
        r matches Some(s) ==> s@ == vstd::utf8::decode_utf8(v@),
{
    String::from_utf8(v).ok()
}

} // verus!
