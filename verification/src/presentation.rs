//! Public presentation of durable events: a safe placeholder formatter, the
//! stable choice of template and goat for an event, and the rendered
//! overlay and Nostr texts.
use vstd::prelude::*;
use vstd::string::{StrSliceExecFns, StringSliceAdditionalSpecFns};
use vstd::utf8::{decode_utf8, encode_utf8, valid_utf8};

use crate::ascii::{alnum, digit, is_alnum, is_digit};
use crate::crypto::{sha256, sha256_digest};
use crate::ledger::DurableEvent;
use crate::text::{append_str, blank, byte_len, decimal, decimal_string, is_blank, same_text, text_len, utf8_string};

verus! {

/// Why a template was refused or could not be filled.
#[derive(Debug, Clone, Copy, PartialEq, Eq, Structural)]
pub enum TemplateError {
    UnmatchedOpen,
    UnmatchedClose,
    UnsafePlaceholder,
    MissingField,
}

/// Index of the first `x` in `b`, or its length when there is none.
pub open spec fn index_of(b: Seq<u8>, x: u8) -> nat
    decreases b.len(),
{
    if b.len() == 0 || b[0] == x {
        0
    } else {
        1 + index_of(b.drop_first(), x)
    }
}

pub proof fn lemma_index_of_bound(b: Seq<u8>, x: u8)
    ensures
        index_of(b, x) <= b.len(),
        index_of(b, x) < b.len() ==> b[index_of(b, x) as int] == x,
        forall|j: int| 0 <= j < index_of(b, x) ==> b[j] != x,
    decreases b.len(),
{
    if b.len() > 0 && b[0] != x {
        lemma_index_of_bound(b.drop_first(), x);
        assert forall|j: int| 0 <= j < index_of(b, x) implies b[j] != x by {
            if j > 0 {
                assert(b[j] == b.drop_first()[j - 1]);
            }
        }
    }
}

proof fn lemma_index_of(b: Seq<u8>, x: u8, k: nat)
    requires
        k <= b.len(),
        forall|j: int| 0 <= j < k ==> #[trigger] b[j] != x,
        k == b.len() || b[k as int] == x,
    ensures
        index_of(b, x) == k,
    decreases k,
{
    if k > 0 {
        assert forall|j: int| 0 <= j < k - 1 implies #[trigger] b.drop_first()[j] != x by {
            assert(b.drop_first()[j] == b[j + 1]);
        }
        if k < b.len() {
            assert(b.drop_first()[k - 1] == b[k as int]);
        }
        lemma_index_of(b.drop_first(), x, (k - 1) as nat);
    }
}

pub open spec fn is_field_byte(c: u8) -> bool {
    is_alnum(c) || c == 95
}

/// A placeholder name: an identifier of ASCII letters, digits and `_` that
/// does not start with a digit; no attribute or index access.
pub open spec fn safe_field(f: Seq<u8>) -> bool {
    &&& f.len() > 0
    &&& forall|i: int| 0 <= i < f.len() ==> is_field_byte(#[trigger] f[i])
    &&& !is_digit(f[0])
}

/// The syntax check of a template: every `{` closes with a `}` around a
/// safe placeholder name, and no `}` stands alone.
pub open spec fn template_check(b: Seq<u8>) -> Result<(), TemplateError>
    decreases b.len(),
{
    let o = index_of(b, 123);
    if o >= b.len() {
        if index_of(b, 125) < b.len() {
            Err(TemplateError::UnmatchedClose)
        } else {
            Ok(())
        }
    } else {
        let after = b.subrange(o as int + 1, b.len() as int);
        let c = index_of(after, 125);
        if c >= after.len() {
            Err(TemplateError::UnmatchedOpen)
        } else if !safe_field(after.subrange(0, c as int)) {
            Err(TemplateError::UnsafePlaceholder)
        } else {
            template_check(after.subrange(c as int + 1, after.len() as int))
        }
    }
}

/// The value the first pair with this key holds.
pub open spec fn lookup(values: Seq<(Seq<char>, Seq<char>)>, key: Seq<char>) -> Option<Seq<char>>
    decreases values.len(),
{
    if values.len() == 0 {
        None
    } else if values[0].0 == key {
        Some(values[0].1)
    } else {
        lookup(values.drop_first(), key)
    }
}

/// The bytes of a template with each placeholder replaced by its value.
pub open spec fn substituted(b: Seq<u8>, values: Seq<(Seq<char>, Seq<char>)>) -> Result<Seq<u8>, TemplateError>
    decreases b.len(),
{
    let o = index_of(b, 123);
    if o >= b.len() {
        Ok(b)
    } else {
        let after = b.subrange(o as int + 1, b.len() as int);
        let c = index_of(after, 125);
        if c >= after.len() {
            Err(TemplateError::UnmatchedOpen)
        } else {
            let field = after.subrange(0, c as int);
            match lookup(values, decode_utf8(field)) {
                None => Err(TemplateError::MissingField),
                Some(v) => match substituted(after.subrange(c as int + 1, after.len() as int), values) {
                    Err(e) => Err(e),
                    Ok(r) => Ok(b.subrange(0, o as int) + encode_utf8(v) + r),
                },
            }
        }
    }
}

pub open spec fn prepend(prefix: Seq<u8>, r: Result<Seq<u8>, TemplateError>) -> Result<Seq<u8>, TemplateError> {
    match r {
        Ok(rest) => Ok(prefix + rest),
        Err(e) => Err(e),
    }
}

fn find_byte(b: &[u8], from: usize, x: u8) -> (r: usize)
    requires
        from <= b@.len(),
    ensures
        r == from + index_of(b@.subrange(from as int, b@.len() as int), x),
        from <= r <= b@.len(),
        r < b@.len() ==> b@[r as int] == x,
{
    let ghost rest = b@.subrange(from as int, b@.len() as int);
    let mut i = from;
    while i < b.len()
        invariant
            from <= i <= b@.len(),
            rest == b@.subrange(from as int, b@.len() as int),
            forall|j: int| 0 <= j < i - from ==> #[trigger] rest[j] != x,
        decreases b@.len() - i,
    {
        if b[i] == x {
            proof {
                lemma_index_of(rest, x, (i - from) as nat);
            }
            return i;
        }
        i = i + 1;
    }
    proof {
        lemma_index_of(rest, x, (i - from) as nat);
    }
    i
}

fn check_field(b: &[u8], lo: usize, hi: usize) -> (ok: bool)
    requires
        lo <= hi <= b@.len(),
    ensures
        ok == safe_field(b@.subrange(lo as int, hi as int)),
{
    let ghost f = b@.subrange(lo as int, hi as int);
    if lo == hi || digit(b[lo]) {
        return false;
    }
    let mut i = lo;
    while i < hi
        invariant
            lo <= i <= hi <= b@.len(),
            f == b@.subrange(lo as int, hi as int),
            forall|j: int| 0 <= j < i - lo ==> is_field_byte(#[trigger] f[j]),
        decreases hi - i,
    {
        if !(alnum(b[i]) || b[i] == 95) {
            assert(!is_field_byte(f[i - lo]));
            return false;
        }
        i = i + 1;
    }
    true
}

proof fn lemma_subrange_shift(b: Seq<u8>, pos: int, o: int)
    requires
        0 <= pos <= o < b.len(),
    ensures
        b.subrange(pos, b.len() as int).subrange(o - pos + 1, b.len() - pos) =~= b.subrange(o as int + 1, b.len() as int),
{
}

/// Check a template's placeholders: `{name}` with `name` a safe identifier,
/// and no unmatched brace.
pub fn validate_template_syntax(template: &str) -> (res: Result<(), TemplateError>)
    ensures
        res == template_check(template.spec_bytes()),
{
    let b = template.as_bytes();
    let n = b.len();
    let mut pos: usize = 0;
    assert(b@.subrange(0, n as int) =~= b@);
    while pos <= n
        invariant
            pos <= n == b@.len(),
            b@ == template.spec_bytes(),
            template_check(b@) == template_check(b@.subrange(pos as int, n as int)),
        decreases n - pos,
    {
        let ghost rest = b@.subrange(pos as int, n as int);
        let open = find_byte(b, pos, 123);
        if open == n {
            let close = find_byte(b, pos, 125);
            if close < n {
                return Err(TemplateError::UnmatchedClose);
            }
            return Ok(());
        }
        let ghost after = rest.subrange(open - pos + 1, rest.len() as int);
        assert(after =~= b@.subrange(open + 1, n as int));
        let close = find_byte(b, open + 1, 125);
        if close == n {
            return Err(TemplateError::UnmatchedOpen);
        }
        assert(after.subrange(0, close - open - 1) =~= b@.subrange(open + 1, close as int));
        if !check_field(b, open + 1, close) {
            return Err(TemplateError::UnsafePlaceholder);
        }
        assert(after.subrange(close - open, after.len() as int) =~= b@.subrange(close + 1, n as int));
        pos = close + 1;
    }
    Ok(())
}

#[verifier::loop_isolation(false)]
fn find_value<'a>(values: &'a Vec<(String, String)>, b: &[u8], lo: usize, hi: usize) -> (r: Option<&'a String>)
    requires
        lo <= hi <= b@.len(),
        forall|i: int| lo <= i < hi ==> is_field_byte(#[trigger] b@[i]),
    ensures
        match lookup(pairs_view(values@), decode_utf8(b@.subrange(lo as int, hi as int))) {
            Some(v) => r matches Some(s) && s@ == v,
            None => r is None,
        },
{
    let ghost key = decode_utf8(b@.subrange(lo as int, hi as int));
    let mut i: usize = 0;
    assert(pairs_view(values@).subrange(0, values@.len() as int) =~= pairs_view(values@));
    while i < values.len()
        invariant
            i <= values@.len(),
            lookup(pairs_view(values@), key) == lookup(pairs_view(values@).subrange(i as int, values@.len() as int), key),
        decreases values@.len() - i,
    {
        proof {
            assert(pairs_view(values@).subrange(i as int, values@.len() as int).drop_first() =~= pairs_view(values@).subrange(i + 1, values@.len() as int));
            assert forall|j: int| 0 <= j < hi - lo implies is_field_byte(#[trigger] b@.subrange(lo as int, hi as int)[j]) by {
                assert(b@.subrange(lo as int, hi as int)[j] == b@[lo + j]);
            }
        }
        let k = values[i].0.as_str().as_bytes();
        if bytes_range_equal(k, b, lo, hi) {
            proof {
                lemma_ascii_key(b@.subrange(lo as int, hi as int), values@[i as int].0@);
            }
            return Some(&values[i].1);
        }
        proof {
            if values@[i as int].0@ == key {
                lemma_ascii_key(b@.subrange(lo as int, hi as int), values@[i as int].0@);
            }
        }
        i = i + 1;
    }
    None
}

/// The view of a list of (key, value) pairs.
pub open spec fn pairs_view(values: Seq<(String, String)>) -> Seq<(Seq<char>, Seq<char>)> {
    values.map_values(|p: (String, String)| (p.0@, p.1@))
}

fn bytes_range_equal(k: &[u8], b: &[u8], lo: usize, hi: usize) -> (r: bool)
    requires
        lo <= hi <= b@.len(),
    ensures
        r == (k@ == b@.subrange(lo as int, hi as int)),
{
    if k.len() != hi - lo {
        return false;
    }
    let mut i: usize = 0;
    while i < k.len()
        invariant
            k@.len() == hi - lo,
            lo <= hi <= b@.len(),
            i <= k@.len(),
            forall|j: int| 0 <= j < i ==> k@[j] == b@[lo + j],
        decreases k@.len() - i,
    {
        if k[i] != b[lo + i] {
            assert(b@.subrange(lo as int, hi as int)[i as int] != k@[i as int]);
            return false;
        }
        i = i + 1;
    }
    assert(k@ =~= b@.subrange(lo as int, hi as int));
    true
}

/// A key's text equals the text of ASCII bytes exactly when its bytes are
/// those bytes.
proof fn lemma_ascii_key(f: Seq<u8>, key: Seq<char>)
    requires
        forall|i: int| 0 <= i < f.len() ==> is_field_byte(#[trigger] f[i]),
    ensures
        (encode_utf8(key) == f) <==> (key == decode_utf8(f)),
{
    assert(valid_utf8(f)) by {
        assert forall|i: int| 0 <= i < f.len() implies #[trigger] f[i] < 128 by {
            assert(is_field_byte(f[i]));
        }
        lemma_ascii_valid(f);
    }
    vstd::utf8::decode_utf8_encode_utf8(f);
    vstd::utf8::encode_utf8_decode_utf8(key);
}

proof fn lemma_ascii_valid(f: Seq<u8>)
    requires
        forall|i: int| 0 <= i < f.len() ==> #[trigger] f[i] < 128,
    ensures
        valid_utf8(f),
    decreases f.len(),
{
    if f.len() > 0 {
        assert(vstd::utf8::pop_first_scalar(f) =~= f.drop_first());
        lemma_ascii_valid(f.drop_first());
        reveal_with_fuel(valid_utf8, 1);
    }
}

proof fn lemma_split_ascii(s: Seq<u8>, i: int)
    requires
        valid_utf8(s),
        0 <= i < s.len(),
        s[i] < 128,
    ensures
        valid_utf8(s.subrange(0, i)),
        valid_utf8(s.subrange(i + 1, s.len() as int)),
{
    vstd::utf8::is_char_boundary_iff_not_is_continuation_byte(s, i);
    vstd::utf8::valid_utf8_split(s, i);
    let t = s.subrange(i, s.len() as int);
    assert(vstd::utf8::pop_first_scalar(t) =~= s.subrange(i + 1, s.len() as int));
}

proof fn lemma_utf8_subrange_ascii_end(s: Seq<u8>, lo: int, i: int)
    requires
        valid_utf8(s.subrange(lo, s.len() as int)),
        0 <= lo <= i < s.len(),
        s[i] < 128,
    ensures
        valid_utf8(s.subrange(lo, i)),
        valid_utf8(s.subrange(i + 1, s.len() as int)),
{
    let t = s.subrange(lo, s.len() as int);
    lemma_split_ascii(t, i - lo);
    assert(t.subrange(0, i - lo) =~= s.subrange(lo, i));
    assert(t.subrange(i - lo + 1, t.len() as int) =~= s.subrange(i + 1, s.len() as int));
}

pub(crate) fn append_range(out: &mut Vec<u8>, b: &[u8], lo: usize, hi: usize)
    requires
        lo <= hi <= b@.len(),
    ensures
        final(out)@ == old(out)@ + b@.subrange(lo as int, hi as int),
{
    let mut i = lo;
    while i < hi
        invariant
            lo <= i <= hi <= b@.len(),
            out@ == old(out)@ + b@.subrange(lo as int, i as int),
        decreases hi - i,
    {
        out.push(b[i]);
        i = i + 1;
        assert(out@ =~= old(out)@ + b@.subrange(lo as int, i as int));
    }
}

/// Fill a template's placeholders from `values` (the first pair with a name
/// gives its value). The template must pass [`validate_template_syntax`];
/// a placeholder with no value is refused. Nothing else is evaluated.
#[verifier::loop_isolation(false)]
#[verifier::rlimit(60)]
#[verifier::spinoff_prover]
pub fn safe_substitute(template: &str, values: &Vec<(String, String)>) -> (res: Result<String, TemplateError>)
    ensures
        match template_check(template.spec_bytes()) {
            Err(e) => res == Err::<String, TemplateError>(e),
            Ok(()) => match substituted(template.spec_bytes(), pairs_view(values@)) {
                Err(e) => res == Err::<String, TemplateError>(e),
                Ok(out) => res matches Ok(s) && encode_utf8(s@) == out,
            },
        },
{
    let checked = validate_template_syntax(template);
    if let Err(e) = checked {
        return Err(e);
    }
    let b = template.as_bytes();
    let n = b.len();
    let ghost vals = pairs_view(values@);
    let mut out: Vec<u8> = Vec::new();
    let mut pos: usize = 0;
    proof {
        vstd::utf8::encode_utf8_valid_utf8(template@);
        assert(b@.subrange(0, n as int) =~= b@);
        assert(out@ + b@ =~= b@);
    }
    loop
        invariant
            pos <= n == b@.len(),
            b@ == template.spec_bytes(),
            valid_utf8(out@),
            valid_utf8(b@.subrange(pos as int, n as int)),
            template_check(b@.subrange(pos as int, n as int)) is Ok,
            substituted(b@, vals) == prepend(out@, substituted(b@.subrange(pos as int, n as int), vals)),
        decreases n - pos,
    {
        let ghost rest = b@.subrange(pos as int, n as int);
        let open = find_byte(b, pos, 123);
        if open == n {
            let ghost before = out@;
            append_range(&mut out, b, pos, n);
            proof {
                vstd::utf8::valid_utf8_concat(before, rest);
            }
            let s = utf8_string(out);
            proof {
                vstd::utf8::decode_utf8_encode_utf8(before + rest);
            }
            return Ok(s);
        }
        let ghost after = rest.subrange(open - pos + 1, rest.len() as int);
        assert(after =~= b@.subrange(open + 1, n as int));
        let close = find_byte(b, open + 1, 125);
        if close == n {
            return Err(TemplateError::UnmatchedOpen);
        }
        assert(after.subrange(0, close - open - 1) =~= b@.subrange(open + 1, close as int));
        proof {
            assert forall|i: int| open + 1 <= i < close implies is_field_byte(#[trigger] b@[i]) by {
                assert(b@[i] == after.subrange(0, close - open - 1)[i - open - 1]);
            }
        }
        let value = match find_value(values, b, open + 1, close) {
            None => return Err(TemplateError::MissingField),
            Some(v) => v,
        };
        let ghost before = out@;
        let ghost piece = b@.subrange(pos as int, open as int);
        append_range(&mut out, b, pos, open);
        let vb = value.as_str().as_bytes();
        let ghost mid = out@;
        append_range(&mut out, vb, 0, vb.len());
        proof {
            assert(b@[open as int] == 123u8);
            lemma_utf8_subrange_ascii_end(b@, pos as int, open as int);
            assert(b@[close as int] == 125u8);
            lemma_utf8_subrange_ascii_end(b@, (open + 1) as int, close as int);
            vstd::utf8::encode_utf8_valid_utf8(value@);
            assert(vb@.subrange(0, vb@.len() as int) =~= vb@);
            vstd::utf8::valid_utf8_concat(before, piece);
            vstd::utf8::valid_utf8_concat(before + piece, vb@);
            assert(after.subrange(close - open, after.len() as int) =~= b@.subrange(close + 1, n as int));
            assert(out@ =~= before + piece + encode_utf8(value@));
            let next = b@.subrange(close + 1, n as int);
            assert(index_of(rest, 123) == open - pos);
            assert(index_of(after, 125) == close - open - 1);
            assert(rest.subrange(0, open - pos) =~= piece);
            assert(after.subrange(close - open, after.len() as int) =~= next);
            let field = after.subrange(0, close - open - 1);
            assert(lookup(vals, decode_utf8(field)) == Some(value@));
            let r2 = substituted(next, vals);
            assert(substituted(rest, vals) == match r2 {
                Err(e) => Err(e),
                Ok(r) => Ok::<Seq<u8>, TemplateError>(piece + encode_utf8(value@) + r),
            });
            if r2 is Ok {
                let r = r2->Ok_0;
                assert(before + (piece + encode_utf8(value@) + r) =~= out@ + r);
            }
        }
        pos = close + 1;
    }
}

/// Sats still needed for the next feeding: up to the threshold while the
/// credit is below it, else up to the next multiple of it.
pub open spec fn remaining(credit: nat, threshold: nat) -> nat {
    if credit < threshold {
        (threshold - credit) as nat
    } else {
        (threshold - credit % threshold) as nat
    }
}

pub fn remaining_sats(credit: u64, threshold: u64) -> (r: u64)
    requires
        threshold > 0,
    ensures
        r == remaining(credit as nat, threshold as nat),
        0 < r <= threshold,
{
    if credit < threshold {
        threshold - credit
    } else {
        threshold - (credit % threshold)
    }
}

/// The progress line shown with every payment and feeding.
pub open spec fn difference_text(credit: nat, threshold: nat) -> Seq<char> {
    if credit < threshold {
        decimal((threshold - credit) as nat) + " sats until feeder activation."@
    } else if credit % threshold == 0 {
        "Feeder ready! "@ + decimal(credit / threshold) + " feeding(s) are funded."@
    } else {
        "Feeder ready! "@ + decimal(credit / threshold) + " feeding(s) are funded, with "@ + decimal(
            credit % threshold,
        ) + " sats already toward the following feeding."@
    }
}

/// What the progress message says, for every credit and threshold > 0:
/// below one threshold it is the positive number of sats still missing and
/// " sats until feeder activation."; from one threshold on it starts with
/// "Feeder ready! " and the number of funded feedings, `credit / threshold`,
/// ends " feeding(s) are funded." when the credit is a whole number of
/// feedings, and otherwise names the remainder toward the next one.
pub proof fn law_progress_message_follows_credit(credit: nat, threshold: nat)
    requires
        threshold > 0,
    ensures
        credit < threshold ==> threshold - credit > 0 && difference_text(credit, threshold) == decimal(
            (threshold - credit) as nat,
        ) + " sats until feeder activation."@,
        credit >= threshold ==> credit / threshold >= 1 && difference_text(credit, threshold).subrange(
            0,
            14,
        ) == "Feeder ready! "@ && difference_text(credit, threshold).subrange(
            0,
            14 + decimal(credit / threshold).len() as int,
        ) == "Feeder ready! "@ + decimal(credit / threshold),
        credit >= threshold && credit % threshold == 0 ==> difference_text(credit, threshold)
            == "Feeder ready! "@ + decimal(credit / threshold) + " feeding(s) are funded."@,
        credit >= threshold && credit % threshold != 0 ==> difference_text(credit, threshold)
            == "Feeder ready! "@ + decimal(credit / threshold) + " feeding(s) are funded, with "@
            + decimal(credit % threshold) + " sats already toward the following feeding."@,
{
    reveal_strlit("Feeder ready! ");
    if credit >= threshold {
        assert(credit / threshold >= 1) by (nonlinear_arith)
            requires
                credit >= threshold,
                threshold > 0,
        ;
        let p = "Feeder ready! "@;
        let q = p + decimal(credit / threshold);
        let t = difference_text(credit, threshold);
        assert(t.subrange(0, q.len() as int) =~= q);
        assert(t.subrange(0, 14) =~= p);
    }
}

pub fn difference_message(credit: u64, threshold: u64) -> (m: String)
    requires
        threshold > 0,
    ensures
        m@ == difference_text(credit as nat, threshold as nat),
        credit < threshold ==> threshold - credit > 0 && m@ == decimal((threshold - credit) as nat)
            + " sats until feeder activation."@,
        credit >= threshold ==> m@.subrange(0, 14) == "Feeder ready! "@ && m@.subrange(
            0,
            14 + decimal((credit / threshold) as nat).len() as int,
        ) == "Feeder ready! "@ + decimal((credit / threshold) as nat),
{
    proof {
        law_progress_message_follows_credit(credit as nat, threshold as nat);
    }
    if credit < threshold {
        let mut m = decimal_string(threshold - credit);
        append_str(&mut m, " sats until feeder activation.");
        return m;
    }
    let feeds_due = credit / threshold;
    let remainder = credit % threshold;
    let mut m = "Feeder ready! ".to_owned();
    let due = decimal_string(feeds_due);
    append_str(&mut m, due.as_str());
    if remainder == 0 {
        append_str(&mut m, " feeding(s) are funded.");
    } else {
        append_str(&mut m, " feeding(s) are funded, with ");
        let rest = decimal_string(remainder);
        append_str(&mut m, rest.as_str());
        append_str(&mut m, " sats already toward the following feeding.");
    }
    m
}

/// The big-endian value of bytes.
pub open spec fn be_value(s: Seq<u8>) -> nat
    decreases s.len(),
{
    if s.len() == 0 {
        0
    } else {
        be_value(s.drop_last()) * 256 + s.last() as nat
    }
}

/// 256 to the power `k`.
pub open spec fn pow256(k: nat) -> nat
    decreases k,
{
    if k == 0 {
        1
    } else {
        256 * pow256((k - 1) as nat)
    }
}

/// `n.to_be_bytes()`.
pub open spec fn be_bytes(n: u64) -> Seq<u8> {
    Seq::new(8, |i: int| ((n as nat / pow256((7 - i) as nat)) % 256) as u8)
}

/// The message whose digest picks the template or goat of an event.
pub open spec fn choice_message(seq: u64, event_type: Seq<char>, purpose: Seq<char>) -> Seq<u8> {
    be_bytes(seq) + encode_utf8(event_type) + seq![0u8] + encode_utf8(purpose)
}

/// A stable index below `len`: the first eight bytes of the SHA-256 of
/// the event's sequence number, type and the purpose, read big-endian,
/// modulo `len`.
pub open spec fn stable_choice(seq: u64, event_type: Seq<char>, purpose: Seq<char>, len: nat) -> nat {
    be_value(sha256(choice_message(seq, event_type, purpose)).subrange(0, 8)) % len
}

pub(crate) fn push_be_bytes(out: &mut Vec<u8>, n: u64)
    ensures
        final(out)@ == old(out)@ + be_bytes(n),
{
    let mut i: usize = 0;
    let ghost start = old(out)@;
    while i < 8
        invariant
            i <= 8,
            out@ == start + be_bytes(n).subrange(0, i as int),
        decreases 8 - i,
    {
        proof {
            reveal_with_fuel(pow256, 8);
        }
        let divisor: u64 = if i == 0 {
            72057594037927936
        } else if i == 1 {
            281474976710656
        } else if i == 2 {
            1099511627776
        } else if i == 3 {
            4294967296
        } else if i == 4 {
            16777216
        } else if i == 5 {
            65536
        } else if i == 6 {
            256
        } else {
            1
        };
        assert(divisor == pow256((7 - i) as nat));
        out.push(((n / divisor) % 256) as u8);
        i = i + 1;
        assert(out@ =~= start + be_bytes(n).subrange(0, i as int));
    }
    assert(be_bytes(n).subrange(0, 8) =~= be_bytes(n));
}

proof fn lemma_be_value_bound(s: Seq<u8>)
    ensures
        be_value(s) < pow256(s.len()),
    decreases s.len(),
{
    if s.len() > 0 {
        lemma_be_value_bound(s.drop_last());
        let k = (s.len() - 1) as nat;
        assert(be_value(s.drop_last()) * 256 + s.last() < pow256(k) * 256) by (nonlinear_arith)
            requires
                be_value(s.drop_last()) < pow256(k),
                s.last() < 256,
        ;
        assert(pow256(s.len()) == 256 * pow256(k));
    }
}

proof fn lemma_pow256_le7(k: nat)
    requires
        k <= 7,
    ensures
        pow256(k) <= 72057594037927936,
    decreases k,
{
    reveal_with_fuel(pow256, 8);
    if k > 0 {
        lemma_pow256_le7((k - 1) as nat);
    }
}

/// The first eight bytes of a digest, read big-endian.
pub(crate) fn be_u64_prefix(digest: &Vec<u8>) -> (v: u64)
    requires
        digest@.len() >= 8,
    ensures
        v == be_value(digest@.subrange(0, 8)),
{
    let mut v: u64 = 0;
    let mut i: usize = 0;
    while i < 8
        invariant
            i <= 8,
            digest@.len() >= 8,
            v == be_value(digest@.subrange(0, i as int)),
        decreases 8 - i,
    {
        proof {
            lemma_be_value_bound(digest@.subrange(0, i as int));
            lemma_pow256_le7(i as nat);
            assert(digest@.subrange(0, i + 1).drop_last() =~= digest@.subrange(0, i as int));
            assert(v * 256 + digest@[i as int] <= u64::MAX) by (nonlinear_arith)
                requires
                    v < pow256(i as nat),
                    pow256(i as nat) <= 72057594037927936,
                    digest@[i as int] < 256,
            ;
        }
        v = v * 256 + digest[i] as u64;
        i = i + 1;
    }
    v
}

/// The stable choice of an index below `len` for an event and a purpose.
pub fn stable_index(event: &DurableEvent, purpose: &str, len: usize) -> (r: usize)
    requires
        len > 0,
    ensures
        r == stable_choice(event.seq, event.event_type@, purpose@, len as nat),
        r < len,
{
    let mut message: Vec<u8> = Vec::new();
    push_be_bytes(&mut message, event.seq);
    let t = event.event_type.as_str().as_bytes();
    append_range(&mut message, t, 0, t.len());
    message.push(0);
    let p = purpose.as_bytes();
    append_range(&mut message, p, 0, p.len());
    proof {
        assert(t@.subrange(0, t@.len() as int) =~= t@);
        assert(p@.subrange(0, p@.len() as int) =~= p@);
        assert(message@ =~= choice_message(event.seq, event.event_type@, purpose@));
    }
    let digest = sha256_digest(message.as_slice());
    let v = be_u64_prefix(&digest);
    (v % (len as u64)) as usize
}

/// One of the herd's goats: its Lightning Address user, display name and
/// Nostr profile.
#[derive(Debug, Clone, Copy, PartialEq, Eq)]
pub struct Goat {
    pub user: &'static str,
    pub name: &'static str,
    pub nostr_profile: &'static str,
}

pub const GOAT_COUNT: usize = 5;

/// The goats by index.
pub open spec fn goat_user(i: int) -> Seq<char> {
    if i == 0 {
        "dexter"@
    } else if i == 1 {
        "rowan"@
    } else if i == 2 {
        "cosmo"@
    } else if i == 3 {
        "newton"@
    } else {
        "nova"@
    }
}

pub open spec fn goat_name(i: int) -> Seq<char> {
    if i == 0 {
        "Dexter"@
    } else if i == 1 {
        "Rowan"@
    } else if i == 2 {
        "Cosmo"@
    } else if i == 3 {
        "Newton"@
    } else {
        "Nova"@
    }
}

pub open spec fn goat_profile(i: int) -> Seq<char> {
    if i == 0 {
        "nostr:nprofile1qqsw4zlzyfx43mc88psnlse8sywpfl45kuap9dy05yzkepkvu6ca5wg7qyak5"@
    } else if i == 1 {
        "nostr:nprofile1qqs2w94r0fs29gepzfn5zuaupn969gu3fstj3gq8kvw3cvx9fnxmaugwur22r"@
    } else if i == 2 {
        "nostr:nprofile1qqsq6n8u7dzrnhhy7xy78k2ee7e4wxlgrkm5g2rgjl3napr9q54n4ncvkqcsj"@
    } else if i == 3 {
        "nostr:nprofile1qqszdsnpyzwhjcqads3hwfywt5jfmy85jvx8yup06yq0klrh93ldjxc26lmyx"@
    } else {
        "nostr:nprofile1qqsrzy7clymq5xwcfhh0dfz6zfe7h63k8r0j8yr49mxu6as4yv2084s0vf035"@
    }
}

pub fn goat_at(i: usize) -> (g: Goat)
    requires
        i < GOAT_COUNT,
    ensures
        g.user@ == goat_user(i as int),
        g.name@ == goat_name(i as int),
        g.nostr_profile@ == goat_profile(i as int),
{
    if i == 0 {
        Goat { user: "dexter", name: "Dexter", nostr_profile: "nostr:nprofile1qqsw4zlzyfx43mc88psnlse8sywpfl45kuap9dy05yzkepkvu6ca5wg7qyak5" }
    } else if i == 1 {
        Goat { user: "rowan", name: "Rowan", nostr_profile: "nostr:nprofile1qqs2w94r0fs29gepzfn5zuaupn969gu3fstj3gq8kvw3cvx9fnxmaugwur22r" }
    } else if i == 2 {
        Goat { user: "cosmo", name: "Cosmo", nostr_profile: "nostr:nprofile1qqsq6n8u7dzrnhhy7xy78k2ee7e4wxlgrkm5g2rgjl3napr9q54n4ncvkqcsj" }
    } else if i == 3 {
        Goat { user: "newton", name: "Newton", nostr_profile: "nostr:nprofile1qqszdsnpyzwhjcqads3hwfywt5jfmy85jvx8yup06yq0klrh93ldjxc26lmyx" }
    } else {
        Goat { user: "nova", name: "Nova", nostr_profile: "nostr:nprofile1qqsrzy7clymq5xwcfhh0dfz6zfe7h63k8r0j8yr49mxu6as4yv2084s0vf035" }
    }
}

/// The goat of an event: the one whose address received it, else a stable
/// choice among the herd.
pub open spec fn goat_index(event: DurableEvent, address_user: Option<Seq<char>>) -> int {
    if address_user is Some && exists|i: int| 0 <= i < GOAT_COUNT && goat_user(i) == address_user->0 {
        choose|i: int| 0 <= i < GOAT_COUNT && goat_user(i) == address_user->0
    } else {
        stable_choice(event.seq, event.event_type@, "goat"@, GOAT_COUNT as nat) as int
    }
}

proof fn lemma_goat_users_distinct()
    ensures
        forall|i: int, j: int| 0 <= i < GOAT_COUNT && 0 <= j < GOAT_COUNT && goat_user(i) == goat_user(j) ==> i == j,
{
    reveal_strlit("dexter");
    reveal_strlit("rowan");
    reveal_strlit("cosmo");
    reveal_strlit("newton");
    reveal_strlit("nova");
    assert("dexter"@[0] != "rowan"@[0]);
    assert("dexter"@[0] != "cosmo"@[0]);
    assert("dexter"@[0] != "newton"@[0]);
    assert("dexter"@[0] != "nova"@[0]);
    assert("rowan"@[0] != "cosmo"@[0]);
    assert("rowan"@[0] != "newton"@[0]);
    assert("rowan"@[0] != "nova"@[0]);
    assert("cosmo"@[0] != "newton"@[0]);
    assert("cosmo"@[0] != "nova"@[0]);
    assert("newton"@.len() != "nova"@.len());
}

#[verifier::loop_isolation(false)]
pub fn goat_for_event(event: &DurableEvent, address_user: Option<&str>) -> (g: Goat)
    ensures
        ({
            let i = goat_index(*event, match address_user {
                Some(u) => Some(u@),
                None => None,
            });
            &&& 0 <= i < GOAT_COUNT
            &&& g.user@ == goat_user(i)
            &&& g.name@ == goat_name(i)
            &&& g.nostr_profile@ == goat_profile(i)
        }),
{
    proof {
        lemma_goat_users_distinct();
    }
    if let Some(user) = address_user {
        let mut i: usize = 0;
        while i < GOAT_COUNT
            invariant
                i <= GOAT_COUNT,
                forall|j: int| 0 <= j < i ==> goat_user(j) != user@,
            decreases GOAT_COUNT - i,
        {
            let g = goat_at(i);
            if same_text(g.user, user) {
                return g;
            }
            i = i + 1;
        }
    }
    goat_at(stable_index(event, "goat", GOAT_COUNT))
}

/// A goat shown on the overlay.
#[derive(Debug, Clone, PartialEq, Eq)]
pub struct OverlayGoat {
    pub name: String,
    pub image_url: String,
}

pub fn overlay_goat(goat: &Goat) -> (o: OverlayGoat)
    ensures
        o.name@ == goat.name@,
        o.image_url@ == "images/"@ + goat.user@ + ".png"@,
{
    let mut image_url = "images/".to_owned();
    append_str(&mut image_url, goat.user);
    append_str(&mut image_url, ".png");
    OverlayGoat { name: goat.name.to_owned(), image_url }
}

/// The placeholder values every payment and feeding template can use.
pub open spec fn common_view(amount: nat, difference: Seq<char>, goat_name: Seq<char>) -> Seq<(Seq<char>, Seq<char>)> {
    seq![
        ("new_amount"@, decimal(amount)),
        ("difference_message"@, difference),
        ("goat_name"@, goat_name),
    ]
}

pub fn common_values(amount: u64, difference_message: &str, goat_name: &str) -> (values: Vec<(String, String)>)
    ensures
        pairs_view(values@) == common_view(amount as nat, difference_message@, goat_name@),
{
    let mut values: Vec<(String, String)> = Vec::new();
    values.push(("new_amount".to_owned(), decimal_string(amount)));
    values.push(("difference_message".to_owned(), difference_message.to_owned()));
    values.push(("goat_name".to_owned(), goat_name.to_owned()));
    assert(pairs_view(values@) =~= common_view(amount as nat, difference_message@, goat_name@));
    values
}

/// What filling a template gives: its syntax error, a missing field, or the
/// bytes of the filled text.
pub open spec fn fill(template: Seq<char>, values: Seq<(Seq<char>, Seq<char>)>) -> Result<Seq<u8>, TemplateError> {
    match template_check(encode_utf8(template)) {
        Err(e) => Err(e),
        Ok(()) => substituted(encode_utf8(template), values),
    }
}

/// The templates of each presentation category.
#[derive(Debug, Clone)]
pub struct TemplateCatalog {
    pub sats_received: Vec<String>,
    pub feeder_trigger: Vec<String>,
    pub interface_info: Vec<String>,
}

/// Why an event could not be presented, or a catalog was refused.
#[derive(Debug, Clone, Copy, PartialEq, Eq)]
pub enum RenderError {
    ZeroThreshold,
    InvalidPayload,
    MissingField(&'static str),
    Template(TemplateError),
    EmptyCategory,
    LargeCategory,
    TemplateLength,
    WeatherMessage,
}

/// The check of one template of a catalog.
pub open spec fn template_entry_check(t: Seq<char>) -> Result<(), RenderError> {
    if blank(t) || byte_len(t) > 8192 {
        Err(RenderError::TemplateLength)
    } else if template_check(encode_utf8(t)) is Err {
        Err(RenderError::Template(template_check(encode_utf8(t))->Err_0))
    } else {
        Ok(())
    }
}

pub open spec fn entries_check(ts: Seq<String>, n: nat) -> Result<(), RenderError>
    decreases n,
{
    if n == 0 {
        Ok(())
    } else {
        match entries_check(ts, (n - 1) as nat) {
            Err(e) => Err(e),
            Ok(()) => template_entry_check(ts[n - 1]@),
        }
    }
}

/// The check of one category: 1 to 1000 templates, each valid.
pub open spec fn category_check(ts: Seq<String>) -> Result<(), RenderError> {
    if ts.len() == 0 {
        Err(RenderError::EmptyCategory)
    } else if ts.len() > 1000 {
        Err(RenderError::LargeCategory)
    } else {
        entries_check(ts, ts.len())
    }
}

pub open spec fn catalog_check(c: TemplateCatalog) -> Result<(), RenderError> {
    if category_check(c.sats_received@) is Err {
        category_check(c.sats_received@)
    } else if category_check(c.feeder_trigger@) is Err {
        category_check(c.feeder_trigger@)
    } else {
        category_check(c.interface_info@)
    }
}

proof fn lemma_entries_error_sticks(ts: Seq<String>, k: nat, n: nat)
    requires
        k <= n,
        entries_check(ts, k) is Err,
    ensures
        entries_check(ts, n) == entries_check(ts, k),
    decreases n - k,
{
    if k < n {
        lemma_entries_error_sticks(ts, k, (n - 1) as nat);
    }
}

fn check_category(templates: &Vec<String>) -> (res: Result<(), RenderError>)
    ensures
        res == category_check(templates@),
{
    let n = templates.len();
    if n == 0 {
        return Err(RenderError::EmptyCategory);
    }
    if n > 1000 {
        return Err(RenderError::LargeCategory);
    }
    let mut i: usize = 0;
    while i < n
        invariant
            n == templates@.len(),
            1 <= n <= 1000,
            i <= n,
            entries_check(templates@, i as nat) is Ok,
        decreases n - i,
    {
        let t = templates[i].as_str();
        let check = if is_blank(t) || text_len(t) > 8192 {
            Err(RenderError::TemplateLength)
        } else {
            match validate_template_syntax(t) {
                Err(e) => Err(RenderError::Template(e)),
                Ok(()) => Ok(()),
            }
        };
        assert(check is Ok <==> template_entry_check(templates@[i as int]@) is Ok);
        assert(check is Err ==> check == template_entry_check(templates@[i as int]@));
        if let Err(e) = check {
            proof {
                lemma_entries_error_sticks(templates@, (i + 1) as nat, n as nat);
            }
            return Err(e);
        }
        i = i + 1;
    }
    Ok(())
}

/// Check a template catalog: each category holds 1 to 1000 nonblank
/// templates of at most 8192 bytes with only safe placeholders.
pub fn validate_catalog(catalog: &TemplateCatalog) -> (res: Result<(), RenderError>)
    ensures
        res is Ok <==> catalog_check(*catalog) is Ok,
        res is Err ==> res == catalog_check(*catalog),
{
    if let Err(e) = check_category(&catalog.sats_received) {
        return Err(e);
    }
    if let Err(e) = check_category(&catalog.feeder_trigger) {
        return Err(e);
    }
    check_category(&catalog.interface_info)
}

/// The template of a category chosen for an event and purpose.
pub fn select_template<'a>(templates: &'a Vec<String>, event: &DurableEvent, purpose: &str) -> (res: Result<&'a String, RenderError>)
    ensures
        templates@.len() == 0 ==> res == Err::<&String, RenderError>(RenderError::EmptyCategory),
        templates@.len() > 0 ==> res == Ok::<&String, RenderError>(
            &templates@[stable_choice(event.seq, event.event_type@, purpose@, templates@.len()) as int],
        ),
{
    if templates.len() == 0 {
        return Err(RenderError::EmptyCategory);
    }
    let index = stable_index(event, purpose, templates.len());
    Ok(&templates[index])
}

/// What an event shows: Nostr text, and the overlay's type, message and
/// goats.
#[derive(Debug, Clone, PartialEq, Eq)]
pub struct RenderedPresentation {
    pub nostr_content: Option<String>,
    pub overlay_type: Option<String>,
    pub overlay_message: Option<String>,
    pub overlay_goats: Vec<OverlayGoat>,
}

impl RenderedPresentation {
    pub fn empty() -> (p: Self)
        ensures
            p.nostr_content is None,
            p.overlay_type is None,
            p.overlay_message is None,
            p.overlay_goats@.len() == 0,
    {
        RenderedPresentation { nostr_content: None, overlay_type: None, overlay_message: None, overlay_goats: Vec::new() }
    }
}

/// The fields of an event's JSON payload that presentation reads: unsigned
/// integers and strings, `None` where the field is absent or of another type.
#[derive(Debug, Clone)]
pub struct EventFields {
    pub amount_sats: Option<u64>,
    pub feed_credit_sats: Option<u64>,
    pub threshold_sats: Option<u64>,
    pub address_user: Option<String>,
    pub message: Option<String>,
    /// `data.observed_at` of a weather payload.
    pub weather_observed_at: Option<String>,
}

/// Renders events with a checked catalog.
#[derive(Debug, Clone)]
pub struct MessageRenderer {
    catalog: TemplateCatalog,
}

/// The placeholder values of a payment, for one goat text (its name on the
/// overlay, its profile on Nostr).
pub open spec fn payment_view(amount: nat, credit: nat, threshold: nat, goat_text: Seq<char>) -> Seq<(Seq<char>, Seq<char>)> {
    common_view(amount, difference_text(credit, threshold), goat_text).push(
        ("difference"@, decimal(remaining(credit, threshold))),
    )
}

/// What presenting a payment gives: the goat of its address (or a stable
/// one), the progress line, and a stable template filled for Nostr (goat
/// profile) and for the overlay (goat name).
pub open spec fn payment_rendered(
    catalog: TemplateCatalog,
    event: DurableEvent,
    fields: EventFields,
    threshold_sats: u64,
    res: Result<RenderedPresentation, RenderError>,
) -> bool {
    &&& (fields.amount_sats is None ==> res == Err::<RenderedPresentation, RenderError>(
        RenderError::MissingField("amount_sats"),
    ))
    &&& (fields.amount_sats is Some && fields.feed_credit_sats is None ==> res == Err::<
        RenderedPresentation,
        RenderError,
    >(RenderError::MissingField("feed_credit_sats")))
    &&& (fields.amount_sats is Some && fields.feed_credit_sats is Some ==> {
                let amount = fields.amount_sats->0 as nat;
                let credit = fields.feed_credit_sats->0 as nat;
                let user = match fields.address_user {
                    Some(u) => u@,
                    None => "herd"@,
                };
                let g = goat_index(event, Some(user));
                let ts = catalog.sats_received@;
                let t = ts[stable_choice(event.seq, event.event_type@, "sats_received"@, ts.len()) as int]@;
                let nostr = fill(t, payment_view(amount, credit, threshold_sats as nat, goat_profile(g)));
                let overlay = fill(t, payment_view(amount, credit, threshold_sats as nat, goat_name(g)));
                &&& ts.len() == 0 ==> res == Err::<RenderedPresentation, RenderError>(RenderError::EmptyCategory)
                &&& ts.len() > 0 && nostr is Err ==> res == Err::<RenderedPresentation, RenderError>(
                    RenderError::Template(nostr->Err_0),
                )
                &&& ts.len() > 0 && nostr is Ok && overlay is Err ==> res == Err::<
                    RenderedPresentation,
                    RenderError,
                >(RenderError::Template(overlay->Err_0))
                &&& ts.len() > 0 && nostr is Ok && overlay is Ok ==> (res matches Ok(p) && {
                    &&& encode_utf8(p.nostr_content->0@) == nostr->Ok_0 && p.nostr_content is Some
                    &&& p.overlay_type matches Some(ty) && ty@ == "sats_received"@
                    &&& encode_utf8(p.overlay_message->0@) == overlay->Ok_0 && p.overlay_message is Some
                    &&& p.overlay_goats@.len() == 1
                    &&& p.overlay_goats@[0].name@ == goat_name(g)
                    &&& p.overlay_goats@[0].image_url@ == "images/"@ + goat_user(g) + ".png"@
                })
            })
}

/// What presenting a feeding gives: a stable goat and template, with the
/// threshold as the amount.
pub open spec fn feeder_rendered(
    catalog: TemplateCatalog,
    event: DurableEvent,
    fields: EventFields,
    threshold_sats: u64,
    res: Result<RenderedPresentation, RenderError>,
) -> bool {
    &&& (fields.threshold_sats is None ==> res == Err::<RenderedPresentation, RenderError>(
        RenderError::MissingField("threshold_sats"),
    ))
    &&& (fields.threshold_sats is Some && fields.feed_credit_sats is None ==> res == Err::<
        RenderedPresentation,
        RenderError,
    >(RenderError::MissingField("feed_credit_sats")))
    &&& (fields.threshold_sats is Some && fields.feed_credit_sats is Some ==> {
                let amount = fields.threshold_sats->0 as nat;
                let credit = fields.feed_credit_sats->0 as nat;
                let g = goat_index(event, None);
                let ts = catalog.feeder_trigger@;
                let t = ts[stable_choice(event.seq, event.event_type@, "feeder_trigger"@, ts.len()) as int]@;
                let d = difference_text(credit, threshold_sats as nat);
                let nostr = fill(t, common_view(amount, d, goat_profile(g)));
                let overlay = fill(t, common_view(amount, d, goat_name(g)));
                &&& ts.len() == 0 ==> res == Err::<RenderedPresentation, RenderError>(RenderError::EmptyCategory)
                &&& ts.len() > 0 && nostr is Err ==> res == Err::<RenderedPresentation, RenderError>(
                    RenderError::Template(nostr->Err_0),
                )
                &&& ts.len() > 0 && nostr is Ok && overlay is Err ==> res == Err::<
                    RenderedPresentation,
                    RenderError,
                >(RenderError::Template(overlay->Err_0))
                &&& ts.len() > 0 && nostr is Ok && overlay is Ok ==> (res matches Ok(p) && {
                    &&& encode_utf8(p.nostr_content->0@) == nostr->Ok_0 && p.nostr_content is Some
                    &&& p.overlay_type matches Some(ty) && ty@ == "feeder_trigger"@
                    &&& encode_utf8(p.overlay_message->0@) == overlay->Ok_0 && p.overlay_message is Some
                    &&& p.overlay_goats@.len() == 1
                    &&& p.overlay_goats@[0].name@ == goat_name(g)
                    &&& p.overlay_goats@[0].image_url@ == "images/"@ + goat_user(g) + ".png"@
                })
            })
}

/// What presenting interface information gives: overlay only, from a
/// template without placeholders.
pub open spec fn interface_rendered(
    catalog: TemplateCatalog,
    event: DurableEvent,
    res: Result<RenderedPresentation, RenderError>,
) -> bool {
    &&& (({
                let ts = catalog.interface_info@;
                let t = ts[stable_choice(event.seq, event.event_type@, "interface_info"@, ts.len()) as int]@;
                let overlay = fill(t, Seq::empty());
                &&& ts.len() == 0 ==> res == Err::<RenderedPresentation, RenderError>(RenderError::EmptyCategory)
                &&& ts.len() > 0 && overlay is Err ==> res == Err::<RenderedPresentation, RenderError>(
                    RenderError::Template(overlay->Err_0),
                )
                &&& ts.len() > 0 && overlay is Ok ==> (res matches Ok(p) && {
                    &&& p.nostr_content is None
                    &&& p.overlay_type matches Some(ty) && ty@ == "interface_info"@
                    &&& encode_utf8(p.overlay_message->0@) == overlay->Ok_0 && p.overlay_message is Some
                    &&& p.overlay_goats@.len() == 0
                })
            }))
}

/// What presenting a weather status gives: its message on the overlay only.
pub open spec fn weather_rendered(fields: EventFields, res: Result<RenderedPresentation, RenderError>) -> bool {
    &&& (fields.message is None ==> res == Err::<RenderedPresentation, RenderError>(
        RenderError::MissingField("message"),
    ))
    &&& (fields.message matches Some(m) && (blank(m@) || byte_len(m@) > 2000) ==> res == Err::<
        RenderedPresentation,
        RenderError,
    >(RenderError::WeatherMessage))
    &&& (fields.message matches Some(m) && !(blank(m@) || byte_len(m@) > 2000) ==> (res matches Ok(p) && {
                &&& p.nostr_content is None
                &&& p.overlay_type matches Some(ty) && ty@ == "weather_status"@
                &&& p.overlay_message matches Some(om) && om@ == fields.message->0@
                &&& p.overlay_goats@.len() == 0
            }))
}

/// What presenting a durable event gives (see `MessageRenderer::render`).
pub open spec fn rendered(
    catalog: TemplateCatalog,
    event: DurableEvent,
    fields: Option<EventFields>,
    threshold_sats: u64,
    res: Result<RenderedPresentation, RenderError>,
) -> bool {
    if threshold_sats == 0 {
        res == Err::<RenderedPresentation, RenderError>(RenderError::ZeroThreshold)
    } else if fields is None {
        res == Err::<RenderedPresentation, RenderError>(RenderError::InvalidPayload)
    } else if event.event_type@ == "payment_received"@ {
        payment_rendered(catalog, event, fields->0, threshold_sats, res)
    } else if event.event_type@ == "feeder_confirmed"@ {
        feeder_rendered(catalog, event, fields->0, threshold_sats, res)
    } else if event.event_type@ == "interface_info"@ {
        interface_rendered(catalog, event, res)
    } else if event.event_type@ == "weather_status"@ {
        weather_rendered(fields->0, res)
    } else {
        res matches Ok(p) && p.nostr_content is None && p.overlay_type is None && p.overlay_message is None
            && p.overlay_goats@.len() == 0
    }
}

fn with_difference(values: Vec<(String, String)>, remaining: u64) -> (r: Vec<(String, String)>)
    ensures
        pairs_view(r@) == pairs_view(values@).push(("difference"@, decimal(remaining as nat))),
{
    let mut values = values;
    let ghost before = values@;
    values.push(("difference".to_owned(), decimal_string(remaining)));
    assert(pairs_view(values@) =~= pairs_view(before).push(("difference"@, decimal(remaining as nat))));
    values
}

fn substitute(template: &String, values: &Vec<(String, String)>) -> (res: Result<String, RenderError>)
    ensures
        match fill(template@, pairs_view(values@)) {
            Err(e) => res == Err::<String, RenderError>(RenderError::Template(e)),
            Ok(out) => res matches Ok(s) && encode_utf8(s@) == out,
        },
{
    match safe_substitute(template.as_str(), values) {
        Ok(s) => Ok(s),
        Err(e) => Err(RenderError::Template(e)),
    }
}

impl MessageRenderer {
    pub closed spec fn catalog_view(&self) -> TemplateCatalog {
        self.catalog
    }

    /// A renderer for a checked catalog.
    pub fn from_catalog(catalog: TemplateCatalog) -> (res: Result<Self, RenderError>)
        ensures
            res is Ok <==> catalog_check(catalog) is Ok,
            res matches Err(e) ==> catalog_check(catalog) == Err::<(), RenderError>(e),
            res matches Ok(r) ==> r.catalog_view() == catalog,
    {
        match validate_catalog(&catalog) {
            Err(e) => Err(e),
            Ok(()) => Ok(MessageRenderer { catalog }),
        }
    }

    /// Present a payment: the goat of its address (or a stable one), the
    /// progress line, and a stable template filled for Nostr (goat profile)
    /// and for the overlay (goat name).
    pub fn render_payment(&self, event: &DurableEvent, fields: &EventFields, threshold_sats: u64) -> (res: Result<RenderedPresentation, RenderError>)
        requires
            threshold_sats > 0,
        ensures
            payment_rendered(self.catalog_view(), *event, *fields, threshold_sats, res),
    {
        let amount = match fields.amount_sats {
            None => return Err(RenderError::MissingField("amount_sats")),
            Some(a) => a,
        };
        let credit = match fields.feed_credit_sats {
            None => return Err(RenderError::MissingField("feed_credit_sats")),
            Some(c) => c,
        };
        let user: &str = match &fields.address_user {
            Some(u) => u.as_str(),
            None => "herd",
        };
        let goat = goat_for_event(event, Some(user));
        let difference = difference_message(credit, threshold_sats);
        let template = match select_template(&self.catalog.sats_received, event, "sats_received") {
            Ok(t) => t,
            Err(e) => return Err(e),
        };
        let remaining = remaining_sats(credit, threshold_sats);
        let overlay_values = with_difference(common_values(amount, difference.as_str(), goat.name), remaining);
        let nostr_values = with_difference(common_values(amount, difference.as_str(), goat.nostr_profile), remaining);
        let nostr = match substitute(template, &nostr_values) {
            Ok(n) => n,
            Err(e) => return Err(e),
        };
        let overlay = match substitute(template, &overlay_values) {
            Ok(o) => o,
            Err(e) => return Err(e),
        };
        let mut goats: Vec<OverlayGoat> = Vec::new();
        goats.push(overlay_goat(&goat));
        Ok(
            RenderedPresentation {
                nostr_content: Some(nostr),
                overlay_type: Some("sats_received".to_owned()),
                overlay_message: Some(overlay),
                overlay_goats: goats,
            },
        )
    }

    /// Present a feeding: a stable goat and template, with the threshold as
    /// the amount.
    pub fn render_feeder(&self, event: &DurableEvent, fields: &EventFields, threshold_sats: u64) -> (res: Result<RenderedPresentation, RenderError>)
        requires
            threshold_sats > 0,
        ensures
            feeder_rendered(self.catalog_view(), *event, *fields, threshold_sats, res),
    {
        let amount = match fields.threshold_sats {
            None => return Err(RenderError::MissingField("threshold_sats")),
            Some(a) => a,
        };
        let credit = match fields.feed_credit_sats {
            None => return Err(RenderError::MissingField("feed_credit_sats")),
            Some(c) => c,
        };
        let goat = goat_for_event(event, None);
        let difference = difference_message(credit, threshold_sats);
        let template = match select_template(&self.catalog.feeder_trigger, event, "feeder_trigger") {
            Ok(t) => t,
            Err(e) => return Err(e),
        };
        let overlay_values = common_values(amount, difference.as_str(), goat.name);
        let nostr_values = common_values(amount, difference.as_str(), goat.nostr_profile);
        let nostr = match substitute(template, &nostr_values) {
            Ok(n) => n,
            Err(e) => return Err(e),
        };
        let overlay = match substitute(template, &overlay_values) {
            Ok(o) => o,
            Err(e) => return Err(e),
        };
        let mut goats: Vec<OverlayGoat> = Vec::new();
        goats.push(overlay_goat(&goat));
        Ok(
            RenderedPresentation {
                nostr_content: Some(nostr),
                overlay_type: Some("feeder_trigger".to_owned()),
                overlay_message: Some(overlay),
                overlay_goats: goats,
            },
        )
    }

    /// Present interface information: overlay only, from a template without
    /// placeholders.
    pub fn render_interface_info(&self, event: &DurableEvent) -> (res: Result<RenderedPresentation, RenderError>)
        ensures
            interface_rendered(self.catalog_view(), *event, res),
    {
        let template = match select_template(&self.catalog.interface_info, event, "interface_info") {
            Ok(t) => t,
            Err(e) => return Err(e),
        };
        let none: Vec<(String, String)> = Vec::new();
        assert(pairs_view(none@) =~= Seq::<(Seq<char>, Seq<char>)>::empty());
        let overlay = match substitute(template, &none) {
            Ok(o) => o,
            Err(e) => return Err(e),
        };
        Ok(
            RenderedPresentation {
                nostr_content: None,
                overlay_type: Some("interface_info".to_owned()),
                overlay_message: Some(overlay),
                overlay_goats: Vec::new(),
            },
        )
    }

    /// Present a weather status: its message on the overlay only.
    pub fn render_weather(&self, fields: &EventFields) -> (res: Result<RenderedPresentation, RenderError>)
        ensures
            weather_rendered(*fields, res),
    {
        let message = match &fields.message {
            None => return Err(RenderError::MissingField("message")),
            Some(m) => m,
        };
        if is_blank(message.as_str()) || text_len(message.as_str()) > 2000 {
            return Err(RenderError::WeatherMessage);
        }
        Ok(
            RenderedPresentation {
                nostr_content: None,
                overlay_type: Some("weather_status".to_owned()),
                overlay_message: Some(message.clone()),
                overlay_goats: Vec::new(),
            },
        )
    }

    /// Present a durable event. `fields` is `None` when its payload is not a
    /// JSON object. Unknown event types present nothing.
    pub fn render(&self, event: &DurableEvent, fields: &Option<EventFields>, threshold_sats: u64) -> (res: Result<RenderedPresentation, RenderError>)
        ensures
            rendered(self.catalog_view(), *event, *fields, threshold_sats, res),
    {
        if threshold_sats == 0 {
            return Err(RenderError::ZeroThreshold);
        }
        let f = match fields {
            None => return Err(RenderError::InvalidPayload),
            Some(f) => f,
        };
        let t = event.event_type.as_str();
        if same_text(t, "payment_received") {
            self.render_payment(event, f, threshold_sats)
        } else if same_text(t, "feeder_confirmed") {
            self.render_feeder(event, f, threshold_sats)
        } else if same_text(t, "interface_info") {
            self.render_interface_info(event)
        } else if same_text(t, "weather_status") {
            self.render_weather(f)
        } else {
            Ok(RenderedPresentation::empty())
        }
    }
}

} // verus!
