//! Little-endian readers over byte buffers, and helpers for turning raw
//! bytes into strings. Every multi-byte field of an image is decoded
//! through these, so their contracts tie each value to the exact bytes.

use vstd::prelude::*;
use vstd::string::StringSliceAdditionalSpecFns;

verus! {

/// The 16-bit little-endian value stored at offset `i`.
pub open spec fn spec_le16(s: Seq<u8>, i: int) -> int {
    s[i] + 0x100 * s[i + 1]
}

/// The 32-bit little-endian value stored at offset `i`.
pub open spec fn spec_le32(s: Seq<u8>, i: int) -> int {
    s[i] + 0x100 * s[i + 1] + 0x10000 * s[i + 2] + 0x1000000 * s[i + 3]
}

pub fn read_u16_le(v: &Vec<u8>, off: usize) -> (r: u16)
    requires
        off + 2 <= v.len(),
    ensures
        r == spec_le16(v@, off as int),
{
    v[off] as u16 + 0x100 * (v[off + 1] as u16)
}

pub fn read_u32_le(v: &Vec<u8>, off: usize) -> (r: u32)
    requires
        off + 4 <= v.len(),
    ensures
        r == spec_le32(v@, off as int),
{
    v[off] as u32 + 0x100 * (v[off + 1] as u32) + 0x10000 * (v[off + 2] as u32) + 0x1000000 * (v[
        off + 3
    ] as u32)
}

/// The characters that a sequence of ASCII bytes stands for.
pub open spec fn ascii_chars(s: Seq<u8>) -> Seq<char> {
    s.map(|i: int, b: u8| b as char)
}

/// The value of one hexadecimal digit byte, or a negative marker for
/// any other byte.
pub open spec fn spec_hex_digit_val(b: u8) -> int {
    if 0x30 <= b <= 0x39 {
        b - 0x30
    } else if 0x41 <= b <= 0x46 {
        b - 0x41 + 10
    } else if 0x61 <= b <= 0x66 {
        b - 0x61 + 10
    } else {
        -1
    }
}

/// Every byte is a hexadecimal digit and there is at least one.
pub open spec fn spec_hex_valid(bs: Seq<u8>) -> bool {
    bs.len() > 0 && forall|i: int| 0 <= i < bs.len() ==> spec_hex_digit_val(#[trigger] bs[i]) >= 0
}

/// The number a run of hexadecimal digit bytes writes.
pub open spec fn spec_hex_value(bs: Seq<u8>) -> int
    decreases bs.len(),
{
    if bs.len() == 0 {
        0
    } else {
        spec_hex_value(bs.drop_last()) * 16 + spec_hex_digit_val(bs.last())
    }
}

/// A valid digit run writes a non-negative number.
proof fn lemma_hex_value_nonneg(bs: Seq<u8>)
    requires
        forall|i: int| 0 <= i < bs.len() ==> spec_hex_digit_val(#[trigger] bs[i]) >= 0,
    ensures
        spec_hex_value(bs) >= 0,
    decreases bs.len(),
{
    if bs.len() > 0 {
        lemma_hex_value_nonneg(bs.drop_last());
    }
}

/// Reading one more digit never shrinks the number.
proof fn lemma_hex_value_take_grows(bs: Seq<u8>, k: int)
    requires
        0 <= k < bs.len(),
        forall|i: int| 0 <= i < bs.len() ==> spec_hex_digit_val(#[trigger] bs[i]) >= 0,
    ensures
        spec_hex_value(bs.take(k)) <= spec_hex_value(bs.take(k + 1)),
{
    assert(bs.take(k + 1).drop_last() =~= bs.take(k));
    assert(bs.take(k + 1).last() == bs[k]);
    assert forall|i: int|
        0 <= i < bs.take(k).len() implies spec_hex_digit_val(#[trigger] bs.take(k)[i]) >= 0 by {
        assert(bs.take(k)[i] == bs[i]);
    }
    lemma_hex_value_nonneg(bs.take(k));
}

/// The whole run writes at least what any prefix writes.
proof fn lemma_hex_value_prefix_le(bs: Seq<u8>, k: int)
    requires
        0 <= k <= bs.len(),
        forall|i: int| 0 <= i < bs.len() ==> spec_hex_digit_val(#[trigger] bs[i]) >= 0,
    ensures
        spec_hex_value(bs.take(k)) <= spec_hex_value(bs),
    decreases bs.len() - k,
{
    if k == bs.len() {
        assert(bs.take(k) =~= bs);
    } else {
        lemma_hex_value_take_grows(bs, k);
        lemma_hex_value_prefix_le(bs, k + 1);
    }
}

/// The value of one hexadecimal digit byte.
fn hex_digit_val(b: u8) -> (r: Option<u8>)
    ensures
        match r {
            Some(d) => spec_hex_digit_val(b) == d && d < 16,
            None => spec_hex_digit_val(b) < 0,
        },
{
    if 0x30 <= b && b <= 0x39 {
        Some(b - 0x30)
    } else if 0x41 <= b && b <= 0x46 {
        Some(b - 0x41 + 10)
    } else if 0x61 <= b && b <= 0x66 {
        Some(b - 0x61 + 10)
    } else {
        None
    }
}

/// The address a hexadecimal string names: the number its digits
/// write, when every character is a digit, there is at least one,
/// and the number fits the address space.
pub fn parse_hex(s: &str) -> (r: Option<usize>)
    ensures
        ({
            let bs = s.spec_bytes();
            if spec_hex_valid(bs) && spec_hex_value(bs) <= usize::MAX {
                r == Some(spec_hex_value(bs) as usize)
            } else {
                r is None
            }
        }),
{
    let bytes = s.as_bytes();
    let ghost bs = s.spec_bytes();
    let n = bytes.len();
    if n == 0 {
        return None;
    }
    let mut val: usize = 0;
    let mut i: usize = 0;
    while i < n
        invariant
            0 <= i <= n,
            n == bs.len(),
            bs == s.spec_bytes(),
            bytes@ == bs,
            val == spec_hex_value(bs.take(i as int)),
            forall|j: int| 0 <= j < i ==> spec_hex_digit_val(#[trigger] bs[j]) >= 0,
        decreases n - i,
    {
        let b = bytes[i];
        let d = match hex_digit_val(b) {
            Some(d) => d,
            None => {
                return None;
            },
        };
        if val > (usize::MAX - d as usize) / 16 {
            proof {
                assert(bs.take(i + 1).drop_last() =~= bs.take(i as int));
                assert(bs.take(i + 1).last() == bs[i as int]);
                assert(spec_hex_value(bs.take(i + 1)) > usize::MAX);
                assert forall|j: int|
                    0 <= j < bs.len() implies spec_hex_digit_val(#[trigger] bs[j]) >= 0 || !(
                spec_hex_valid(bs)) by {}
                if spec_hex_valid(bs) {
                    lemma_hex_value_prefix_le(bs, i + 1);
                }
            }
            return None;
        }
        proof {
            assert(bs.take(i + 1).drop_last() =~= bs.take(i as int));
            assert(bs.take(i + 1).last() == bs[i as int]);
        }
        val = val * 16 + d as usize;
        i += 1;
    }
    proof {
        assert(bs.take(i as int) =~= bs);
    }
    Some(val)
}

/// The text an array of bytes holds before its first zero, when that
/// text is ASCII and a zero is there to end it.
pub fn string_from_array_with_zero(s: &Vec<u8>) -> (r: Option<String>)
    ensures
        ({
            let end = spec_cstr_end(s@, 0);
            if end < s@.len() && (forall|j: int| 0 <= j < end ==> s@[j] < 0x80) {
                r matches Some(t) && t@ == ascii_chars(s@.subrange(0, end))
            } else {
                r is None
            }
        }),
{
    let (end, all_ascii) = scan_cstr(s, 0);
    if end == s.len() {
        return None;
    }
    if !all_ascii {
        return None;
    }
    Some(string_from_ascii(copy_range(s, 0, end)))
}

/// Whether a byte ends the capture of a byte-string argument: below
/// the printable range or past it.
pub fn utf8_capture_boundary(b: u8) -> (r: bool)
    ensures
        r == (b < 32 || b >= 127),
{
    b < 32 || b >= 127
}

/// Whether a unit ends the capture of a wide-string argument: a zero
/// unit, or the defensive cap on captured units.
pub fn utf16_capture_done(len: usize, unit: u16) -> (r: bool)
    ensures
        r == (unit == 0 || len >= 1024),
{
    unit == 0 || len >= 1024
}

/// Relies on `str`'s equality: two string slices are equal exactly
/// when their characters are.
#[verifier::external_body]
pub fn str_eq(a: &str, b: &str) -> (r: bool)
    ensures
        r == (a@ == b@),
{
    a == b
}

/// The character standing for one hexadecimal digit, upper case.
pub open spec fn spec_hex_digit(d: int) -> char {
    if d < 10 {
        (0x30 + d) as char
    } else {
        (0x37 + d) as char
    }
}

/// The upper-case hexadecimal digits of a number, most significant
/// first, with no leading zeroes (a single zero for zero).
pub open spec fn spec_hex_chars(n: nat) -> Seq<char>
    decreases n,
{
    if n < 16 {
        seq![spec_hex_digit(n as int)]
    } else {
        spec_hex_chars(n / 16).push(spec_hex_digit((n % 16) as int))
    }
}

/// The byte of one hexadecimal digit, upper case.
fn hex_digit_byte(d: u8) -> (r: u8)
    requires
        d < 16,
    ensures
        r < 0x80,
        r as char == spec_hex_digit(d as int),
{
    if d < 10 {
        0x30 + d
    } else {
        0x37 + d
    }
}

/// The bytes of a number's upper-case hexadecimal form.
fn hex_bytes(n: usize) -> (r: Vec<u8>)
    ensures
        ascii_chars(r@) == spec_hex_chars(n as nat),
        forall|i: int| 0 <= i < r@.len() ==> r@[i] < 0x80,
    decreases n,
{
    if n < 16 {
        let mut v: Vec<u8> = Vec::new();
        v.push(hex_digit_byte(n as u8));
        proof {
            assert(ascii_chars(v@) =~= spec_hex_chars(n as nat));
        }
        v
    } else {
        let mut v = hex_bytes(n / 16);
        v.push(hex_digit_byte((n % 16) as u8));
        proof {
            assert(ascii_chars(v@) =~= spec_hex_chars(n as nat));
        }
        v
    }
}

/// A number written in upper-case hexadecimal.
pub fn hex_string(n: usize) -> (r: String)
    ensures
        r@ == spec_hex_chars(n as nat),
{
    string_from_ascii(hex_bytes(n))
}

/// Relies on `String::from_utf8`: on bytes below 0x80 it succeeds and
/// yields one character per byte, each the byte's ASCII character.
#[verifier::external_body]
pub fn string_from_ascii(v: Vec<u8>) -> (r: String)
    requires
        forall|i: int| 0 <= i < v@.len() ==> v@[i] < 0x80,
    ensures
        r@ == ascii_chars(v@),
{
    String::from_utf8(v).unwrap_or_default()
}

/// The first position at or after `off` holding a zero byte, or the
/// buffer's end if none does.
pub open spec fn spec_cstr_end(s: Seq<u8>, off: int) -> int
    decreases s.len() - off,
{
    if off < 0 || off >= s.len() {
        off
    } else if s[off] == 0 {
        off
    } else {
        spec_cstr_end(s, off + 1)
    }
}

/// A zero-terminated scan that stands at a stopping position ends
/// exactly there.
pub proof fn lemma_cstr_end_at(s: Seq<u8>, i: int)
    requires
        0 <= i,
        i >= s.len() || i < s.len() && s[i] == 0,
    ensures
        spec_cstr_end(s, i) == i,
{
}

/// A zero-terminated scan never ends before where it stands, nor past
/// the buffer's end.
pub proof fn lemma_cstr_end_range(s: Seq<u8>, i: int)
    requires
        0 <= i <= s.len(),
    ensures
        i <= spec_cstr_end(s, i) <= s.len(),
        i < s.len() && s[i] != 0 ==> i < spec_cstr_end(s, i),
    decreases s.len() - i,
{
    if i < s.len() && s[i] != 0 {
        lemma_cstr_end_range(s, i + 1);
    }
}

/// The end of the zero-terminated run at `start`, and whether every
/// byte of the run is ASCII.
pub fn scan_cstr(v: &Vec<u8>, start: usize) -> (r: (usize, bool))
    requires
        start <= v.len(),
    ensures
        r.0 == spec_cstr_end(v@, start as int),
        start <= r.0 <= v.len(),
        r.1 == (forall|j: int| start <= j < r.0 ==> v@[j] < 0x80),
        forall|j: int| start <= j < r.0 ==> v@[j] != 0,
{
    let mut i: usize = start;
    let mut all: bool = true;
    while i < v.len() && v[i] != 0
        invariant
            start <= i <= v.len(),
            spec_cstr_end(v@, start as int) == spec_cstr_end(v@, i as int),
            forall|j: int| start <= j < i ==> v@[j] != 0,
            all == (forall|j: int| start <= j < i ==> v@[j] < 0x80),
        decreases v.len() - i,
    {
        if v[i] >= 0x80 {
            all = false;
        }
        assert(all == (forall|j: int| start <= j < i + 1 ==> v@[j] < 0x80));
        i += 1;
    }
    proof {
        lemma_cstr_end_at(v@, i as int);
    }
    (i, all)
}

/// A copy of the bytes in `[a, b)`.
pub fn copy_range(v: &Vec<u8>, a: usize, b: usize) -> (r: Vec<u8>)
    requires
        a <= b <= v.len(),
    ensures
        r@ == v@.subrange(a as int, b as int),
{
    let mut out: Vec<u8> = Vec::new();
    let mut i: usize = a;
    while i < b
        invariant
            a <= i <= b <= v.len(),
            out@ == v@.subrange(a as int, i as int),
        decreases b - i,
    {
        out.push(v[i]);
        i += 1;
        assert(out@ == v@.subrange(a as int, i as int));
    }
    out
}


} // verus!
