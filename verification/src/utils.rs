//! Error reporting, hexadecimal conversion and spatial-reference-id checks.

use vstd::prelude::*;
use vstd::string::StringExecFns;
use vstd::string::StringSliceAdditionalSpecFns;

verus! {

/// Error type for operations of this library.
#[derive(Debug)]
pub struct RostGisError {
    pub message: String,
}

impl RostGisError {
    /// Wraps a message in an error value.
    pub fn new(message: &str) -> (r: Self)
        ensures
            r.message@ == message@,
    {
        RostGisError { message: message.to_owned() }
    }
}

/// True for the bytes of the characters `0`-`9`, `a`-`f` and `A`-`F`.
pub open spec fn is_hex_digit(b: u8) -> bool {
    (48 <= b && b <= 57) || (97 <= b && b <= 102) || (65 <= b && b <= 70)
}

/// Numeric value of a hexadecimal digit byte.
pub open spec fn hex_digit_value(b: u8) -> u8
    recommends
        is_hex_digit(b),
{
    if 48 <= b && b <= 57 {
        (b - 48) as u8
    } else if 97 <= b && b <= 102 {
        ((b - 97) + 10) as u8
    } else {
        ((b - 65) + 10) as u8
    }
}

/// The byte encoded by the hexadecimal digits at positions `2*i` and `2*i + 1`.
pub open spec fn hex_pair_at(s: Seq<u8>, i: int) -> u8
    recommends
        0 <= i,
        2 * i + 1 < s.len(),
{
    (hex_digit_value(s[2 * i]) * 16 + hex_digit_value(s[2 * i + 1])) as u8
}

/// True when every byte of `s` is a hexadecimal digit.
pub open spec fn all_hex_digits(s: Seq<u8>) -> bool {
    forall|i: int| 0 <= i < s.len() ==> is_hex_digit(#[trigger] s[i])
}

/// The bytes of `s` with a leading `0x` removed, if there is one.
pub open spec fn strip_hex_prefix(s: Seq<u8>) -> Seq<u8> {
    if s.len() >= 2 && s[0] == 48 && s[1] == 120 {
        s.skip(2)
    } else {
        s
    }
}

/// Decodes one hexadecimal digit byte, or reports that it is not one.
fn hex_digit_val(b: u8) -> (r: Option<u8>)
    ensures
        r is Some <==> is_hex_digit(b),
        is_hex_digit(b) ==> r == Some(hex_digit_value(b)),
{
    if 48 <= b && b <= 57 {
        Some(b - 48)
    } else if 97 <= b && b <= 102 {
        Some(b - 97 + 10)
    } else if 65 <= b && b <= 70 {
        Some(b - 65 + 10)
    } else {
        None
    }
}

/// Converts a string of hexadecimal digits, optionally prefixed with `0x`,
/// to the bytes it encodes. Rejects a string with an odd number of digits
/// and a string holding any non-digit character.
pub fn hex_to_bytes(hex: &str) -> (r: Result<Vec<u8>, RostGisError>)
    ensures
        ({
            let t = strip_hex_prefix(hex.spec_bytes());
            &&& r is Ok <==> (t.len() % 2 == 0 && all_hex_digits(t))
            &&& r matches Ok(v) ==> {
                &&& v@.len() == t.len() / 2
                &&& forall|i: int| 0 <= i < v@.len() ==> #[trigger] v@[i] == hex_pair_at(t, i)
            }
            &&& t.len() % 2 != 0 ==> (r matches Err(e) && e.message@
                == "Invalid hex string length"@)
            &&& t.len() % 2 == 0 && !all_hex_digits(t) ==> (r matches Err(e) && e.message@
                == "Invalid hex character"@)
        }),
{
    let bytes: &[u8] = hex.as_bytes();
    let n: usize = bytes.len();
    let off: usize = if n >= 2 && bytes[0] == 48 && bytes[1] == 120 {
        2
    } else {
        0
    };
    let ghost t = strip_hex_prefix(hex.spec_bytes());
    assert(t =~= bytes@.skip(off as int));
    if (n - off) % 2 != 0 {
        return Err(RostGisError::new("Invalid hex string length"));
    }
    let mut v: Vec<u8> = Vec::new();
    let mut i: usize = off;
    while i < n
        invariant
            off <= i <= n,
            n == bytes@.len(),
            (i - off) % 2 == 0,
            (n - off) % 2 == 0,
            t == bytes@.skip(off as int),
            t == strip_hex_prefix(hex.spec_bytes()),
            v@.len() == (i - off) / 2,
            forall|j: int| 0 <= j < v@.len() ==> #[trigger] v@[j] == hex_pair_at(t, j),
            forall|k: int| off <= k < i ==> is_hex_digit(#[trigger] bytes@[k]),
        decreases n - i,
    {
        let hi = match hex_digit_val(bytes[i]) {
            Some(d) => d,
            None => {
                proof {
                    assert(t[i - off] == bytes@[i as int]);
                    assert(!all_hex_digits(t));
                }
                return Err(RostGisError::new("Invalid hex character"));
            },
        };
        let lo = match hex_digit_val(bytes[i + 1]) {
            Some(d) => d,
            None => {
                proof {
                    assert(t[i + 1 - off] == bytes@[i + 1int]);
                    assert(!all_hex_digits(t));
                }
                return Err(RostGisError::new("Invalid hex character"));
            },
        };
        v.push(hi * 16 + lo);
        i = i + 2;
    }
    Ok(v)
}

/// The character for a hexadecimal digit value, in lower case.
pub open spec fn hex_char_of(n: u8) -> char
    recommends
        n < 16,
{
    if n == 0 {
        '0'
    } else if n == 1 {
        '1'
    } else if n == 2 {
        '2'
    } else if n == 3 {
        '3'
    } else if n == 4 {
        '4'
    } else if n == 5 {
        '5'
    } else if n == 6 {
        '6'
    } else if n == 7 {
        '7'
    } else if n == 8 {
        '8'
    } else if n == 9 {
        '9'
    } else if n == 10 {
        'a'
    } else if n == 11 {
        'b'
    } else if n == 12 {
        'c'
    } else if n == 13 {
        'd'
    } else if n == 14 {
        'e'
    } else {
        'f'
    }
}

/// The lower-case hexadecimal encoding of a byte sequence: two digit
/// characters for each byte, high digit first.
pub open spec fn hex_encoded(s: Seq<u8>) -> Seq<char> {
    Seq::new((2 * s.len()) as nat, |i: int| if i % 2 == 0 {
        hex_char_of((s[i / 2] / 16) as u8)
    } else {
        hex_char_of((s[i / 2] % 16) as u8)
    })
}

/// One-character string for a hexadecimal digit value.
fn hex_digit_str(n: u8) -> (r: &'static str)
    requires
        n < 16,
    ensures
        r@.len() == 1,
        r@[0] == hex_char_of(n),
{
    proof {
        reveal_strlit("0");
        reveal_strlit("1");
        reveal_strlit("2");
        reveal_strlit("3");
        reveal_strlit("4");
        reveal_strlit("5");
        reveal_strlit("6");
        reveal_strlit("7");
        reveal_strlit("8");
        reveal_strlit("9");
        reveal_strlit("a");
        reveal_strlit("b");
        reveal_strlit("c");
        reveal_strlit("d");
        reveal_strlit("e");
        reveal_strlit("f");
    }
    if n == 0 {
        "0"
    } else if n == 1 {
        "1"
    } else if n == 2 {
        "2"
    } else if n == 3 {
        "3"
    } else if n == 4 {
        "4"
    } else if n == 5 {
        "5"
    } else if n == 6 {
        "6"
    } else if n == 7 {
        "7"
    } else if n == 8 {
        "8"
    } else if n == 9 {
        "9"
    } else if n == 10 {
        "a"
    } else if n == 11 {
        "b"
    } else if n == 12 {
        "c"
    } else if n == 13 {
        "d"
    } else if n == 14 {
        "e"
    } else {
        "f"
    }
}

/// Converts bytes to their lower-case hexadecimal string.
pub fn bytes_to_hex(bytes: &[u8]) -> (r: String)
    ensures
        r@ == hex_encoded(bytes@),
{
    let n: usize = bytes.len();
    let mut s: String = String::new();
    let mut i: usize = 0;
    while i < n
        invariant
            0 <= i <= n,
            n == bytes@.len(),
            s@ == hex_encoded(bytes@.take(i as int)),
        decreases n - i,
    {
        let b = bytes[i];
        let hi = hex_digit_str(b / 16);
        let lo = hex_digit_str(b % 16);
        s.append(hi);
        s.append(lo);
        proof {
            let prev = bytes@.take(i as int);
            let cur = bytes@.take(i + 1int);
            assert(hex_encoded(cur) =~= hex_encoded(prev) + hi@ + lo@);
        }
        i = i + 1;
    }
    proof {
        assert(bytes@.take(n as int) =~= bytes@);
    }
    s
}

/// Checks that a spatial reference id is valid: any value of `-1` or above
/// is accepted and handed back; anything below `-1` is rejected.
pub fn validate_srid(srid: i32) -> (r: Result<i32, RostGisError>)
    ensures
        srid >= -1 ==> r == Ok::<i32, RostGisError>(srid),
        srid < -1 ==> (r matches Err(e) && e.message@ == "Invalid SRID: must be >= -1"@),
{
    if srid < -1 {
        Err(RostGisError::new("Invalid SRID: must be >= -1"))
    } else {
        Ok(srid)
    }
}

} // verus!
