//! Hex and decimal text codecs.
//!
//! Signatures travel on the wire as hex strings and nonces as decimal
//! strings. Encoding and decoding are implemented and verified here against
//! direct mathematical statements of both notations.

use vstd::prelude::*;
use vstd::string::StrSliceExecFns;
use vstd::string::StringExecFns;

verus! {

/// A hex digit character: `0`-`9`, `a`-`f` or `A`-`F`.
pub open spec fn is_hex_digit(c: char) -> bool {
    ('0' <= c && c <= '9') || ('a' <= c && c <= 'f') || ('A' <= c && c <= 'F')
}

/// Numeric value of a hex digit character.
pub open spec fn hex_val(c: char) -> u8
    recommends
        is_hex_digit(c),
{
    if '0' <= c && c <= '9' {
        (c as u8 - 48) as u8
    } else if 'a' <= c && c <= 'f' {
        (c as u8 - 87) as u8
    } else {
        (c as u8 - 55) as u8
    }
}

/// The lowercase hex digit character for a value below 16.
pub open spec fn hex_digit_char(v: u8) -> char
    recommends
        v < 16,
{
    if v < 10 {
        ((v + 48) as u8) as char
    } else {
        ((v + 87) as u8) as char
    }
}

/// The lowercase hex encoding of a byte sequence: two digits per byte,
/// high nibble first.
pub open spec fn hex_chars(s: Seq<u8>) -> Seq<char> {
    Seq::new(
        2 * s.len(),
        |i: int|
            if i % 2 == 0 {
                hex_digit_char(s[i / 2] / 16)
            } else {
                hex_digit_char((s[i / 2] % 16) as u8)
            },
    )
}

/// A well-formed hex string: even length, hex digits only.
pub open spec fn is_hex_seq(s: Seq<char>) -> bool {
    s.len() % 2 == 0 && (forall|i: int| 0 <= i < s.len() ==> is_hex_digit(#[trigger] s[i]))
}

/// The byte sequence denoted by a well-formed hex string.
pub open spec fn hex_decode(s: Seq<char>) -> Seq<u8>
    recommends
        is_hex_seq(s),
{
    Seq::new(s.len() / 2, |i: int| (hex_val(s[2 * i]) * 16 + hex_val(s[2 * i + 1])) as u8)
}

/// The one-character string for a hex digit value.
fn hex_digit_str(v: u8) -> (r: &'static str)
    requires
        v < 16,
    ensures
        r@ =~= seq![hex_digit_char(v)],
{
    proof {
        reveal_strlit("0");
        reveal_strlit("1");
        reveal_strlit("2");
        reveal_strlit("3");
        reveal_strlit("4");
        reveal_strlit("5");
        reveal_strlit("6");
        reveal_strlit("7");
        reveal_strlit("8");
        reveal_strlit("9");
        reveal_strlit("a");
        reveal_strlit("b");
        reveal_strlit("c");
        reveal_strlit("d");
        reveal_strlit("e");
        reveal_strlit("f");
    }
    if v == 0 {
        "0"
    } else if v == 1 {
        "1"
    } else if v == 2 {
        "2"
    } else if v == 3 {
        "3"
    } else if v == 4 {
        "4"
    } else if v == 5 {
        "5"
    } else if v == 6 {
        "6"
    } else if v == 7 {
        "7"
    } else if v == 8 {
        "8"
    } else if v == 9 {
        "9"
    } else if v == 10 {
        "a"
    } else if v == 11 {
        "b"
    } else if v == 12 {
        "c"
    } else if v == 13 {
        "d"
    } else if v == 14 {
        "e"
    } else {
        "f"
    }
}

/// Lowercase hex encoding of a byte slice.
pub fn to_hex_string(bytes: &[u8]) -> (r: String)
    ensures
        r@ =~= hex_chars(bytes@),
{
    let mut s = String::new();
    let mut i: usize = 0;
    while i < bytes.len()
        invariant
            i <= bytes@.len(),
            s@ =~= hex_chars(bytes@.take(i as int)),
        decreases bytes@.len() - i,
    {
        let b = bytes[i];
        s.append(hex_digit_str(b / 16));
        s.append(hex_digit_str(b % 16));
        proof {
            assert(s@ =~= hex_chars(bytes@.take(i + 1 as int)));
        }
        i = i + 1;
    }
    proof {
        assert(bytes@.take(bytes@.len() as int) =~= bytes@);
    }
    s
}

/// Decodes a hex string into its bytes: `Some` exactly on well-formed hex
/// input, `None` on anything else.
pub fn hex_decode_str(s: &str) -> (r: Option<Vec<u8>>)
    ensures
        r is Some <==> is_hex_seq(s@),
        r is Some ==> r->0@ =~= hex_decode(s@),
{
    let n = s.unicode_len();
    if n % 2 != 0 {
        return None;
    }
    let mut out: Vec<u8> = Vec::new();
    let mut i: usize = 0;
    while i < n
        invariant
            n == s@.len(),
            n % 2 == 0,
            i % 2 == 0,
            i <= n,
            forall|j: int| 0 <= j < i ==> is_hex_digit(#[trigger] s@[j]),
            out@ =~= hex_decode(s@.take(i as int)),
        decreases n - i,
    {
        let hi = match hex_val_of(s.get_char(i)) {
            Some(v) => v,
            None => {
                return None;
            },
        };
        let lo = match hex_val_of(s.get_char(i + 1)) {
            Some(v) => v,
            None => {
                return None;
            },
        };
        out.push(hi * 16 + lo);
        proof {
            assert(out@ =~= hex_decode(s@.take(i + 2 as int)));
        }
        i = i + 2;
    }
    proof {
        assert(s@.take(n as int) =~= s@);
    }
    Some(out)
}

/// Numeric value of a hex digit character, or `None` for any other character.
fn hex_val_of(c: char) -> (r: Option<u8>)
    ensures
        r is Some <==> is_hex_digit(c),
        r is Some ==> r->0 == hex_val(c) && r->0 < 16,
{
    if '0' <= c && c <= '9' {
        Some(c as u8 - 48)
    } else if 'a' <= c && c <= 'f' {
        Some(c as u8 - 87)
    } else if 'A' <= c && c <= 'F' {
        Some(c as u8 - 55)
    } else {
        None
    }
}

/// The decimal notation of a natural number, most significant digit first,
/// with no leading zeros (zero itself is `"0"`).
pub open spec fn decimal_chars(n: nat) -> Seq<char>
    decreases n,
{
    if n < 10 {
        seq![hex_digit_char(n as u8)]
    } else {
        decimal_chars(n / 10) + seq![hex_digit_char((n % 10) as u8)]
    }
}

/// The bytes of an ASCII character sequence, one byte per character.
pub open spec fn ascii_bytes(s: Seq<char>) -> Seq<u8> {
    Seq::new(s.len(), |i: int| s[i] as u8)
}

/// Every character of a decimal notation is a digit `0`-`9`.
pub proof fn lemma_decimal_chars_digits(n: nat)
    ensures
        decimal_chars(n).len() >= 1,
        forall|i: int|
            0 <= i < decimal_chars(n).len() ==> '0' <= #[trigger] decimal_chars(n)[i] && decimal_chars(
                n,
            )[i] <= '9',
    decreases n,
{
    if n >= 10 {
        lemma_decimal_chars_digits(n / 10);
    }
}

/// The digit characters of `ds`, least significant digit first, read back
/// to front.
spec fn rev_digit_chars(ds: Seq<u8>) -> Seq<char> {
    Seq::new(ds.len(), |i: int| hex_digit_char(ds[ds.len() - 1 - i]))
}

/// The decimal string of an unsigned integer.
pub fn u64_to_string(n: u64) -> (r: String)
    ensures
        r@ =~= decimal_chars(n as nat),
{
    let mut digits: Vec<u8> = Vec::new();
    let mut m: u64 = n;
    digits.push((m % 10) as u8);
    m = m / 10;
    proof {
        assert(decimal_chars(n as nat) =~= (if m > 0 {
            decimal_chars(m as nat)
        } else {
            Seq::<char>::empty()
        }) + rev_digit_chars(digits@));
    }
    while m > 0
        invariant
            forall|j: int| 0 <= j < digits@.len() ==> #[trigger] digits@[j] < 10,
            decimal_chars(n as nat) =~= (if m > 0 {
                decimal_chars(m as nat)
            } else {
                Seq::<char>::empty()
            }) + rev_digit_chars(digits@),
        decreases m,
    {
        let ghost old_digits = digits@;
        let ghost old_m = m;
        digits.push((m % 10) as u8);
        m = m / 10;
        proof {
            assert(rev_digit_chars(digits@) =~= seq![hex_digit_char((old_m % 10) as u8)]
                + rev_digit_chars(old_digits));
            if old_m >= 10 {
                assert(decimal_chars(old_m as nat) =~= decimal_chars(old_m as nat / 10) + seq![
                    hex_digit_char((old_m % 10) as u8),
                ]);
            }
            assert(decimal_chars(n as nat) =~= (if m > 0 {
                decimal_chars(m as nat)
            } else {
                Seq::<char>::empty()
            }) + rev_digit_chars(digits@));
        }
    }
    let mut s = String::new();
    let mut i: usize = digits.len();
    while i > 0
        invariant
            i <= digits@.len(),
            forall|j: int| 0 <= j < digits@.len() ==> #[trigger] digits@[j] < 10,
            s@ =~= rev_digit_chars(digits@).take(digits@.len() - i),
        decreases i,
    {
        i = i - 1;
        s.append(hex_digit_str(digits[i]));
        proof {
            assert(s@ =~= rev_digit_chars(digits@).take(digits@.len() - i));
        }
    }
    proof {
        assert(rev_digit_chars(digits@).take(digits@.len() as int) =~= rev_digit_chars(digits@));
    }
    s
}

/// Encoding a byte sequence always yields a well-formed hex string, and
/// decoding it gives back exactly the original bytes.
pub proof fn lemma_hex_round_trip(s: Seq<u8>)
    ensures
        is_hex_seq(hex_chars(s)),
        hex_decode(hex_chars(s)) =~= s,
{
    assert forall|i: int| 0 <= i < hex_chars(s).len() implies is_hex_digit(
        #[trigger] hex_chars(s)[i],
    ) by {
        let b = s[i / 2];
        assert(b / 16 < 16);
        assert(b % 16 < 16);
    }
    assert forall|i: int| 0 <= i < s.len() implies hex_decode(hex_chars(s))[i] == s[i] by {
        let b = s[i];
        assert(hex_chars(s)[2 * i] == hex_digit_char(b / 16));
        assert(hex_chars(s)[2 * i + 1] == hex_digit_char((b % 16) as u8));
        assert(hex_val(hex_digit_char(b / 16)) == b / 16);
        assert(hex_val(hex_digit_char((b % 16) as u8)) == b % 16);
    }
}

} // verus!
