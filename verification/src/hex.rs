//! Lowercase hex encoding of byte strings, as used for transaction hashes,
//! public keys and signatures, with exact specifications and round-trip
//! lemmas.

use vstd::prelude::*;

verus! {

/// The lowercase hex character of a nibble.
pub open spec fn spec_hex_char(d: u8) -> char
    recommends
        d < 16,
{
    if d == 0 {
        '0'
    } else if d == 1 {
        '1'
    } else if d == 2 {
        '2'
    } else if d == 3 {
        '3'
    } else if d == 4 {
        '4'
    } else if d == 5 {
        '5'
    } else if d == 6 {
        '6'
    } else if d == 7 {
        '7'
    } else if d == 8 {
        '8'
    } else if d == 9 {
        '9'
    } else if d == 10 {
        'a'
    } else if d == 11 {
        'b'
    } else if d == 12 {
        'c'
    } else if d == 13 {
        'd'
    } else if d == 14 {
        'e'
    } else {
        'f'
    }
}

/// The nibble a hex character stands for, upper or lower case,
/// or `None` for any other character.
pub open spec fn spec_hex_val(c: char) -> Option<u8> {
    let u = c as u32;
    if 48 <= u && u <= 57 {
        Some((u - 48) as u8)
    } else if 97 <= u && u <= 102 {
        Some((u - 87) as u8)
    } else if 65 <= u && u <= 70 {
        Some((u - 55) as u8)
    } else {
        None
    }
}

/// The lowercase hex rendering of a byte string, two characters per byte.
pub open spec fn spec_hex_of(bs: Seq<u8>) -> Seq<char>
    decreases bs.len(),
{
    if bs.len() == 0 {
        seq![]
    } else {
        seq![spec_hex_char(bs[0] >> 4), spec_hex_char(bs[0] & 0xf)] + spec_hex_of(bs.drop_first())
    }
}

/// The bytes a hex string stands for: `None` when the length is odd or
/// any character is not a hex digit.
pub open spec fn spec_hex_decode(h: Seq<char>) -> Option<Seq<u8>>
    decreases h.len(),
{
    if h.len() == 0 {
        Some(seq![])
    } else if h.len() == 1 {
        None
    } else {
        match (spec_hex_val(h[0]), spec_hex_val(h[1])) {
            (Some(hi), Some(lo)) => match spec_hex_decode(h.skip(2)) {
                Some(rest) => Some(seq![(hi << 4 | lo) as u8] + rest),
                None => None,
            },
            _ => None,
        }
    }
}

/// Holds when every character of `h` is a lowercase hex digit.
pub open spec fn is_lower_hex(h: Seq<char>) -> bool {
    forall|i: int|
        0 <= i < h.len() ==> {
            let u = #[trigger] h[i] as u32;
            (48 <= u && u <= 57) || (97 <= u && u <= 102)
        }
}

proof fn lemma_hex_char_val(d: u8)
    requires
        d < 16,
    ensures
        spec_hex_val(spec_hex_char(d)) == Some(d),
        spec_hex_char(d) as u32 == if d < 10 {
            48 + d
        } else {
            87 + d
        },
{
}

/// Decoding inverts encoding: the hex rendering of any byte string
/// decodes back to it.
pub proof fn lemma_hex_of_decodes(bs: Seq<u8>)
    ensures
        spec_hex_decode(spec_hex_of(bs)) == Some(bs),
        spec_hex_of(bs).len() == 2 * bs.len(),
        is_lower_hex(spec_hex_of(bs)),
    decreases bs.len(),
{
    if bs.len() == 0 {
        assert(spec_hex_decode(spec_hex_of(bs)) =~= Some(bs));
    } else {
        let b = bs[0];
        assert(b >> 4 < 16 && b & 0xf < 16) by (bit_vector);
        lemma_hex_char_val(b >> 4);
        lemma_hex_char_val(b & 0xf);
        lemma_hex_of_decodes(bs.drop_first());
        let h = spec_hex_of(bs);
        assert(h.skip(2) =~= spec_hex_of(bs.drop_first()));
        assert((((b >> 4) << 4) | (b & 0xf)) == b) by (bit_vector);
        assert(spec_hex_decode(h).unwrap() =~= bs);
    }
}

/// Encoding inverts decoding on lowercase hex strings.
pub proof fn lemma_hex_decode_of(h: Seq<char>, bs: Seq<u8>)
    requires
        spec_hex_decode(h) == Some(bs),
        is_lower_hex(h),
    ensures
        spec_hex_of(bs) == h,
        h.len() == 2 * bs.len(),
    decreases h.len(),
{
    if h.len() == 0 {
        assert(spec_hex_of(bs) =~= h);
    } else {
        let hi = spec_hex_val(h[0]).unwrap();
        let lo = spec_hex_val(h[1]).unwrap();
        let rest = spec_hex_decode(h.skip(2)).unwrap();
        lemma_hex_decode_of(h.skip(2), rest);
        let b = (hi << 4 | lo) as u8;
        assert(bs == seq![b] + rest);
        assert(bs.drop_first() =~= rest);
        let u0 = h[0] as u32;
        let u1 = h[1] as u32;
        assert(hi < 16 && lo < 16) by {
            assert(48 <= u0 <= 57 || 97 <= u0 <= 102);
            assert(48 <= u1 <= 57 || 97 <= u1 <= 102);
        }
        assert(b >> 4 == hi && b & 0xf == lo) by (bit_vector)
            requires
                hi < 16 && lo < 16 && b == (hi << 4 | lo) as u8,
        ;
        lemma_hex_char_val(hi);
        lemma_hex_char_val(lo);
        assert(spec_hex_char(hi) as u32 == u0 && spec_hex_char(lo) as u32 == u1);
        vstd::utf8::char_u32_cast(spec_hex_char(hi), u0);
        vstd::utf8::char_u32_cast(h[0], u0);
        vstd::utf8::char_u32_cast(spec_hex_char(lo), u1);
        vstd::utf8::char_u32_cast(h[1], u1);
        assert(spec_hex_char(hi) == h[0] && spec_hex_char(lo) == h[1]);
        assert(spec_hex_of(bs) =~= h);
    }
}

/// The one-character string of a nibble's lowercase hex digit.
fn hex_digit_str(d: u8) -> (r: &'static str)
    requires
        d < 16,
    ensures
        r@ == seq![spec_hex_char(d)],
{
    proof {
        reveal_strlit("0");
        reveal_strlit("1");
        reveal_strlit("2");
        reveal_strlit("3");
        reveal_strlit("4");
        reveal_strlit("5");
        reveal_strlit("6");
        reveal_strlit("7");
        reveal_strlit("8");
        reveal_strlit("9");
        reveal_strlit("a");
        reveal_strlit("b");
        reveal_strlit("c");
        reveal_strlit("d");
        reveal_strlit("e");
        reveal_strlit("f");
    }
    let r = match d {
        0 => "0",
        1 => "1",
        2 => "2",
        3 => "3",
        4 => "4",
        5 => "5",
        6 => "6",
        7 => "7",
        8 => "8",
        9 => "9",
        10 => "a",
        11 => "b",
        12 => "c",
        13 => "d",
        14 => "e",
        _ => "f",
    };
    proof {
        assert(r@ =~= seq![spec_hex_char(d)]);
    }
    r
}

/// Renders a byte string as lowercase hex, two characters per byte.
pub fn bytes_to_hex(bytes: &[u8]) -> (s: String)
    ensures
        s@ == spec_hex_of(bytes@),
{
    let mut s = String::new();
    let n = bytes.len();
    assert(bytes@.skip(0) =~= bytes@);
    for i in 0..n
        invariant
            n == bytes@.len(),
            spec_hex_of(bytes@) =~= s@ + spec_hex_of(bytes@.skip(i as int)),
    {
        let b = bytes[i];
        assert(b >> 4 < 16 && b & 0xf < 16) by (bit_vector);
        s.append(hex_digit_str(b >> 4));
        s.append(hex_digit_str(b & 0xf));
        assert(bytes@.skip(i as int).drop_first() =~= bytes@.skip(i + 1));
        assert(bytes@.skip(i as int)[0] == b);
    }
    assert(bytes@.skip(n as int) =~= Seq::<u8>::empty());
    assert(s@ =~= spec_hex_of(bytes@));
    s
}

/// The nibble of a hex character, or `None` for any other character.
pub fn hex_val(c: char) -> (r: Option<u8>)
    ensures
        r == spec_hex_val(c),
{
    let u = c as u32;
    if 48 <= u && u <= 57 {
        Some((u - 48) as u8)
    } else if 97 <= u && u <= 102 {
        Some((u - 87) as u8)
    } else if 65 <= u && u <= 70 {
        Some((u - 55) as u8)
    } else {
        None
    }
}

/// The reason a hex string fails to decode: an odd length, else a
/// character that is no hex digit.
pub open spec fn spec_hex_err(h: Seq<char>) -> Seq<char>
    recommends
        spec_hex_decode(h) is None,
{
    if h.len() % 2 == 1 {
        "hex string has odd length"@
    } else {
        "invalid hex char"@
    }
}

/// Decodes a hex string to bytes.  Fails when the length is odd or a
/// character is not a hex digit, as the wire formats require.
pub fn hex_to_bytes(s: &str) -> (r: Result<Vec<u8>, String>)
    ensures
        match r {
            Ok(bs) => spec_hex_decode(s@) == Some(bs@),
            Err(e) => spec_hex_decode(s@) is None && e@ == spec_hex_err(s@),
        },
{
    let n = s.unicode_len();
    if n % 2 != 0 {
        proof {
            lemma_odd_hex_fails(s@);
        }
        return Err(String::from_str("hex string has odd length"));
    }
    let mut out: Vec<u8> = Vec::new();
    let mut i: usize = 0;
    assert(s@.skip(0) =~= s@);
    while i < n
        invariant
            n == s@.len(),
            n % 2 == 0,
            i % 2 == 0,
            i <= n,
            spec_hex_decode(s@) matches Some(all) ==> {
                &&& spec_hex_decode(s@.skip(i as int)) matches Some(rest)
                &&& all =~= out@ + rest
            },
            (spec_hex_decode(s@) is None) == (spec_hex_decode(s@.skip(i as int)) is None),
        decreases n - i,
    {
        let c0 = s.get_char(i);
        let c1 = s.get_char(i + 1);
        let hi = match hex_val(c0) {
            Some(v) => v,
            None => {
                return Err(String::from_str("invalid hex char"));
            },
        };
        let lo = match hex_val(c1) {
            Some(v) => v,
            None => {
                return Err(String::from_str("invalid hex char"));
            },
        };
        out.push(hi << 4 | lo);
        proof {
            let tail = s@.skip(i as int);
            assert(tail[0] == s@[i as int] && tail[1] == s@[i + 1]);
            assert(tail.skip(2) =~= s@.skip(i + 2));
        }
        i = i + 2;
    }
    assert(s@.skip(n as int) =~= Seq::<char>::empty());
    proof {
        if let Some(all) = spec_hex_decode(s@) {
            assert(all =~= out@);
        }
    }
    Ok(out)
}

proof fn lemma_odd_hex_fails(h: Seq<char>)
    requires
        h.len() % 2 == 1,
    ensures
        spec_hex_decode(h) is None,
    decreases h.len(),
{
    if h.len() > 1 {
        lemma_odd_hex_fails(h.skip(2));
    }
}

} // verus!
