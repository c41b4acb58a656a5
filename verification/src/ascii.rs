//! ASCII byte classes shared by the identifier and amount validators.
use vstd::prelude::*;
use vstd::string::StrSliceExecFns;

verus! {

pub open spec fn is_digit(b: u8) -> bool {
    48 <= b <= 57
}

pub open spec fn is_lower(b: u8) -> bool {
    97 <= b <= 122
}

pub open spec fn is_upper(b: u8) -> bool {
    65 <= b <= 90
}

pub open spec fn is_alnum(b: u8) -> bool {
    is_digit(b) || is_lower(b) || is_upper(b)
}

pub open spec fn is_hex(b: u8) -> bool {
    is_digit(b) || (97 <= b <= 102) || (65 <= b <= 70)
}

pub fn digit(b: u8) -> (r: bool)
    ensures
        r == is_digit(b),
{
    48 <= b && b <= 57
}

pub fn lower(b: u8) -> (r: bool)
    ensures
        r == is_lower(b),
{
    97 <= b && b <= 122
}

pub fn upper(b: u8) -> (r: bool)
    ensures
        r == is_upper(b),
{
    65 <= b && b <= 90
}

pub fn alnum(b: u8) -> (r: bool)
    ensures
        r == is_alnum(b),
{
    digit(b) || lower(b) || upper(b)
}

pub fn hex(b: u8) -> (r: bool)
    ensures
        r == is_hex(b),
{
    digit(b) || (97 <= b && b <= 102) || (65 <= b && b <= 70)
}

/// Every byte is a hexadecimal digit.
pub open spec fn all_hex(bytes: Seq<u8>) -> bool {
    forall|i: int| 0 <= i < bytes.len() ==> is_hex(#[trigger] bytes[i])
}

/// Exactly `len` bytes, all hexadecimal digits.
pub open spec fn hex_of_len(bytes: Seq<u8>, len: nat) -> bool {
    bytes.len() == len && all_hex(bytes)
}

pub fn check_hex_of_len(bytes: &[u8], len: usize) -> (ok: bool)
    ensures
        ok == hex_of_len(bytes@, len as nat),
{
    if bytes.len() != len {
        return false;
    }
    let mut i: usize = 0;
    while i < bytes.len()
        invariant
            i <= bytes@.len(),
            forall|j: int| 0 <= j < i ==> is_hex(#[trigger] bytes@[j]),
        decreases bytes@.len() - i,
    {
        if !hex(bytes[i]) {
            return false;
        }
        i = i + 1;
    }
    true
}

/// Lowercase hexadecimal: digits and `a`-`f` only.
pub open spec fn is_lower_hex(b: u8) -> bool {
    is_digit(b) || (97 <= b <= 102)
}

/// Exactly `len` bytes of canonical lowercase hexadecimal.
pub open spec fn lower_hex_of_len(bytes: Seq<u8>, len: nat) -> bool {
    bytes.len() == len && forall|i: int| 0 <= i < bytes.len() ==> is_lower_hex(#[trigger] bytes[i])
}

pub fn check_lower_hex_of_len(bytes: &[u8], len: usize) -> (ok: bool)
    ensures
        ok == lower_hex_of_len(bytes@, len as nat),
{
    if bytes.len() != len {
        return false;
    }
    let mut i: usize = 0;
    while i < bytes.len()
        invariant
            i <= bytes@.len(),
            forall|j: int| 0 <= j < i ==> is_lower_hex(#[trigger] bytes@[j]),
        decreases bytes@.len() - i,
    {
        let b = bytes[i];
        if !(digit(b) || (97 <= b && b <= 102)) {
            return false;
        }
        i = i + 1;
    }
    true
}

/// Every byte is a digit.
pub open spec fn all_digits(bytes: Seq<u8>) -> bool {
    forall|i: int| 0 <= i < bytes.len() ==> is_digit(#[trigger] bytes[i])
}

pub fn check_all_digits(bytes: &[u8]) -> (ok: bool)
    ensures
        ok == all_digits(bytes@),
{
    let mut i: usize = 0;
    while i < bytes.len()
        invariant
            i <= bytes@.len(),
            forall|j: int| 0 <= j < i ==> is_digit(#[trigger] bytes@[j]),
        decreases bytes@.len() - i,
    {
        if !digit(bytes[i]) {
            return false;
        }
        i = i + 1;
    }
    true
}

/// Any control character in a string (Unicode general category Cc).
pub open spec fn is_control_char(c: char) -> bool {
    (c as u32) < 32 || (127 <= (c as u32) && (c as u32) < 160)
}

pub open spec fn has_control_char(s: Seq<char>) -> bool {
    exists|i: int| 0 <= i < s.len() && is_control_char(#[trigger] s[i])
}

pub fn check_has_control_char(s: &str) -> (found: bool)
    ensures
        found == has_control_char(s@),
{
    let len = s.unicode_len();
    let mut i: usize = 0;
    while i < len
        invariant
            len == s@.len(),
            i <= len,
            forall|j: int| 0 <= j < i ==> !is_control_char(#[trigger] s@[j]),
        decreases len - i,
    {
        let c = s.get_char(i);
        let code = c as u32;
        if code < 32 || (127 <= code && code < 160) {
            assert(is_control_char(s@[i as int]));
            return true;
        }
        i = i + 1;
    }
    false
}

/// ASCII case folding of one byte, as `u8::to_ascii_lowercase` does it.
pub open spec fn fold(b: u8) -> u8 {
    if 65 <= b <= 90 {
        (b + 32) as u8
    } else {
        b
    }
}

/// Equal up to ASCII case, as `str::eq_ignore_ascii_case` decides it.
pub open spec fn same_ignoring_case(a: Seq<u8>, b: Seq<u8>) -> bool {
    a.len() == b.len() && forall|i: int| 0 <= i < a.len() ==> fold(#[trigger] a[i]) == fold(b[i])
}

pub fn eq_ignore_ascii_case(a: &[u8], b: &[u8]) -> (r: bool)
    ensures
        r == same_ignoring_case(a@, b@),
{
    if a.len() != b.len() {
        return false;
    }
    let mut i: usize = 0;
    while i < a.len()
        invariant
            a@.len() == b@.len(),
            i <= a@.len(),
            forall|j: int| 0 <= j < i ==> fold(#[trigger] a@[j]) == fold(b@[j]),
        decreases a@.len() - i,
    {
        let x = if 65 <= a[i] && a[i] <= 90 {
            a[i] + 32
        } else {
            a[i]
        };
        let y = if 65 <= b[i] && b[i] <= 90 {
            b[i] + 32
        } else {
            b[i]
        };
        if x != y {
            return false;
        }
        i = i + 1;
    }
    true
}

/// The bytes of `a` with ASCII letters lowercased.
pub fn fold_bytes(a: &[u8]) -> (r: Vec<u8>)
    ensures
        r@ == a@.map_values(|b: u8| fold(b)),
{
    let mut out: Vec<u8> = Vec::new();
    let mut i: usize = 0;
    while i < a.len()
        invariant
            i <= a@.len(),
            out@ == a@.subrange(0, i as int).map_values(|b: u8| fold(b)),
        decreases a@.len() - i,
    {
        let x = if 65 <= a[i] && a[i] <= 90 {
            a[i] + 32
        } else {
            a[i]
        };
        out.push(x);
        i = i + 1;
        assert(out@ =~= a@.subrange(0, i as int).map_values(|b: u8| fold(b)));
    }
    assert(a@.subrange(0, a@.len() as int) =~= a@);
    out
}

} // verus!
