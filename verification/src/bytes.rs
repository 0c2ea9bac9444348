//! Byte-string helpers shared by the encoders: comparison, concatenation,
//! hexadecimal and decimal text, and JSON string escaping.

use vstd::prelude::*;
use vstd::string::*;

verus! {

/// `s.take(i + 1)` is `s.take(i)` followed by `s[i]`.
pub proof fn lemma_take_step<T>(s: Seq<T>, i: int)
    requires
        0 <= i < s.len(),
    ensures
        s.take(i + 1).drop_last() == s.take(i),
        s.take(i + 1).last() == s[i],
        s.take(i + 1) == s.take(i).push(s[i]),
{
    assert(s.take(i + 1).drop_last() =~= s.take(i));
    assert(s.take(i + 1) =~= s.take(i).push(s[i]));
}

/// Taking the whole length gives the sequence back.
pub proof fn lemma_take_all<T>(s: Seq<T>)
    ensures
        s.take(s.len() as int) == s,
{
    assert(s.take(s.len() as int) =~= s);
}

/// Copies a byte string.
pub fn copy_bytes(s: &[u8]) -> (out: Vec<u8>)
    ensures
        out@ == s@,
{
    let mut out: Vec<u8> = Vec::new();
    let mut i: usize = 0;
    while i < s.len()
        invariant
            i <= s.len(),
            out@ == s@.take(i as int),
        decreases s.len() - i,
    {
        proof {
            lemma_take_step(s@, i as int);
        }
        out.push(s[i]);
        i += 1;
    }
    proof {
        lemma_take_all(s@);
    }
    out
}

/// Appends `s` to `out`.
pub fn append(out: &mut Vec<u8>, s: &[u8])
    ensures
        final(out)@ == old(out)@ + s@,
{
    let mut i: usize = 0;
    while i < s.len()
        invariant
            i <= s.len(),
            out@ == old(out)@ + s@.take(i as int),
        decreases s.len() - i,
    {
        proof {
            lemma_take_step(s@, i as int);
            assert((old(out)@ + s@.take(i as int)).push(s@[i as int]) =~= old(out)@ + s@.take(
                i + 1,
            ));
        }
        out.push(s[i]);
        i += 1;
    }
    proof {
        lemma_take_all(s@);
    }
}

/// Appends the bytes of a text to `out`.
pub fn push_text(out: &mut Vec<u8>, text: &str)
    ensures
        final(out)@ == old(out)@ + text.spec_bytes(),
{
    append(out, text.as_bytes());
}

/// Whether two byte strings hold the same bytes. Stops at the first difference.
pub fn bytes_eq(a: &[u8], b: &[u8]) -> (same: bool)
    ensures
        same == (a@ == b@),
{
    if a.len() != b.len() {
        return false;
    }
    let mut i: usize = 0;
    assert(a@.take(0) =~= b@.take(0));
    while i < a.len()
        invariant
            a.len() == b.len(),
            i <= a.len(),
            a@.take(i as int) == b@.take(i as int),
        decreases a.len() - i,
    {
        if a[i] != b[i] {
            return false;
        }
        proof {
            lemma_take_step(a@, i as int);
            lemma_take_step(b@, i as int);
        }
        i += 1;
    }
    proof {
        lemma_take_all(a@);
        lemma_take_all(b@);
    }
    true
}

/// Whether two byte strings hold the same bytes. When the lengths agree every
/// byte is visited, so the running time does not depend on where they differ.
pub fn constant_time_eq(a: &[u8], b: &[u8]) -> (same: bool)
    ensures
        same == (a@ == b@),
{
    if a.len() != b.len() {
        return false;
    }
    let mut diff: u8 = 0;
    let mut i: usize = 0;
    assert(a@.take(0) =~= b@.take(0));
    while i < a.len()
        invariant
            a.len() == b.len(),
            i <= a.len(),
            (diff == 0) == (a@.take(i as int) == b@.take(i as int)),
        decreases a.len() - i,
    {
        let x: u8 = a[i];
        let y: u8 = b[i];
        let old_diff: u8 = diff;
        diff = diff | (x ^ y);
        proof {
            assert(((old_diff | (x ^ y)) == 0u8) == (old_diff == 0u8 && x == y)) by (bit_vector);
            lemma_take_step(a@, i as int);
            lemma_take_step(b@, i as int);
            if a@.take(i + 1) == b@.take(i + 1) {
                assert(a@.take(i + 1).drop_last() == b@.take(i + 1).drop_last());
                assert(a@.take(i + 1).last() == b@.take(i + 1).last());
            }
        }
        i += 1;
    }
    proof {
        lemma_take_all(a@);
        lemma_take_all(b@);
    }
    diff == 0
}

/// The lower-case hexadecimal digit of a value below sixteen.
pub open spec fn hex_digit(n: u8) -> u8 {
    if n < 10 {
        (48 + n) as u8
    } else {
        (87 + n) as u8
    }
}

/// Lower-case hexadecimal text of a byte string, two digits per byte.
pub open spec fn hex(s: Seq<u8>) -> Seq<u8>
    decreases s.len(),
{
    if s.len() == 0 {
        Seq::empty()
    } else {
        hex(s.drop_last()).push(hex_digit(s.last() / 16)).push(hex_digit(s.last() % 16))
    }
}

fn hex_digit_of(n: u8) -> (d: u8)
    requires
        n < 16,
    ensures
        d == hex_digit(n),
{
    if n < 10 {
        48 + n
    } else {
        87 + n
    }
}

/// Appends the hexadecimal text of `s` to `out`.
pub fn push_hex(out: &mut Vec<u8>, s: &[u8])
    ensures
        final(out)@ == old(out)@ + hex(s@),
{
    let mut i: usize = 0;
    assert(old(out)@ + hex(s@.take(0)) =~= old(out)@);
    while i < s.len()
        invariant
            i <= s.len(),
            out@ == old(out)@ + hex(s@.take(i as int)),
        decreases s.len() - i,
    {
        let b: u8 = s[i];
        proof {
            lemma_take_step(s@, i as int);
            let t = s@.take(i + 1);
            assert(hex(t) == hex(t.drop_last()).push(hex_digit(t.last() / 16)).push(
                hex_digit(t.last() % 16),
            ));
            assert((old(out)@ + hex(s@.take(i as int))).push(hex_digit(b / 16)).push(
                hex_digit(b % 16),
            ) =~= old(out)@ + hex(t));
        }
        out.push(hex_digit_of(b / 16));
        out.push(hex_digit_of(b % 16));
        i += 1;
    }
    proof {
        lemma_take_all(s@);
    }
}

/// Hexadecimal text of a byte string.
pub fn to_hex(s: &[u8]) -> (out: Vec<u8>)
    ensures
        out@ == hex(s@),
{
    let mut out: Vec<u8> = Vec::new();
    push_hex(&mut out, s);
    assert(Seq::<u8>::empty() + hex(s@) =~= hex(s@));
    out
}

/// The value of a lower-case hexadecimal digit; `None` for any other byte.
pub open spec fn hex_value(c: u8) -> Option<u8> {
    if 48 <= c <= 57 {
        Some((c - 48) as u8)
    } else if 97 <= c <= 102 {
        Some((c - 87) as u8)
    } else {
        None
    }
}

/// Whether every byte of a text is a lower-case hexadecimal digit.
pub open spec fn all_hex(text: Seq<u8>) -> bool {
    forall|i: int| 0 <= i < text.len() ==> hex_value(#[trigger] text[i]) is Some
}

/// The byte that two hexadecimal digits at place `k` of a text stand for.
pub open spec fn unhex_at(text: Seq<u8>, k: int) -> u8 {
    (hex_value(text[2 * k]).unwrap() * 16 + hex_value(text[2 * k + 1]).unwrap()) as u8
}

/// The byte string that a hexadecimal text stands for: `None` unless the
/// text has an even number of lower-case hexadecimal digits and nothing else.
pub open spec fn unhex(text: Seq<u8>) -> Option<Seq<u8>> {
    if text.len() % 2 == 0 && all_hex(text) {
        Some(Seq::new(text.len() / 2, |k: int| unhex_at(text, k)))
    } else {
        None
    }
}

proof fn lemma_hex_at(s: Seq<u8>, k: int)
    requires
        0 <= k < s.len(),
    ensures
        hex(s).len() == 2 * s.len(),
        hex(s)[2 * k] == hex_digit(s[k] / 16),
        hex(s)[2 * k + 1] == hex_digit(s[k] % 16),
    decreases s.len(),
{
    lemma_hex_len(s);
    lemma_hex_len(s.drop_last());
    if k < s.len() - 1 {
        lemma_hex_at(s.drop_last(), k);
    }
}

proof fn lemma_hex_len(s: Seq<u8>)
    ensures
        hex(s).len() == 2 * s.len(),
    decreases s.len(),
{
    if s.len() > 0 {
        lemma_hex_len(s.drop_last());
    }
}

/// Reading hexadecimal text that was written gives the bytes back.
pub proof fn lemma_unhex_hex(s: Seq<u8>)
    ensures
        unhex(hex(s)) == Some(s),
{
    let text = hex(s);
    lemma_hex_len(s);
    assert forall|i: int| 0 <= i < text.len() implies hex_value(#[trigger] text[i]) is Some by {
        lemma_hex_at(s, i / 2);
    }
    assert forall|k: int| 0 <= k < s.len() implies unhex_at(text, k) == s[k] by {
        lemma_hex_at(s, k);
    }
    assert(unhex(text).unwrap() =~= s);
}

fn hex_value_of(c: u8) -> (v: Option<u8>)
    ensures
        v == hex_value(c),
{
    if 48 <= c && c <= 57 {
        Some(c - 48)
    } else if 97 <= c && c <= 102 {
        Some(c - 87)
    } else {
        None
    }
}

/// Reads hexadecimal text; see `unhex`.
pub fn from_hex(text: &[u8]) -> (out: Option<Vec<u8>>)
    ensures
        match out {
            Some(bytes) => unhex(text@) == Some(bytes@),
            None => unhex(text@) is None,
        },
{
    if text.len() % 2 != 0 {
        return None;
    }
    let count: usize = text.len() / 2;
    let mut out: Vec<u8> = Vec::new();
    let mut k: usize = 0;
    while k < count
        invariant
            k <= count,
            text@.len() == 2 * count,
            out@.len() == k,
            forall|i: int| 0 <= i < 2 * k ==> hex_value(#[trigger] text@[i]) is Some,
            forall|j: int| 0 <= j < k ==> out@[j] == unhex_at(text@, j),
        decreases count - k,
    {
        let high: u8 = match hex_value_of(text[2 * k]) {
            Some(v) => v,
            None => {
                return None;
            },
        };
        let low: u8 = match hex_value_of(text[2 * k + 1]) {
            Some(v) => v,
            None => {
                return None;
            },
        };
        out.push(high * 16 + low);
        k += 1;
    }
    assert(out@ =~= unhex(text@).unwrap());
    Some(out)
}

/// Decimal text of a number, without leading zeros.
pub open spec fn decimal(n: nat) -> Seq<u8>
    decreases n,
{
    if n < 10 {
        seq![(48 + n) as u8]
    } else {
        decimal(n / 10).push((48 + n % 10) as u8)
    }
}

/// Appends the decimal text of `n` to `out`.
pub fn push_decimal(out: &mut Vec<u8>, n: u64)
    ensures
        final(out)@ == old(out)@ + decimal(n as nat),
    decreases n,
{
    if n < 10 {
        out.push(48 + (n as u8));
        assert(old(out)@.push((48 + n) as u8) =~= old(out)@ + decimal(n as nat));
    } else {
        push_decimal(out, n / 10);
        let d: u8 = (n % 10) as u8;
        out.push(48 + d);
        assert((old(out)@ + decimal((n / 10) as nat)).push((48 + n % 10) as u8) =~= old(out)@
            + decimal(n as nat));
    }
}

/// How one byte is written inside a JSON string: printable ASCII as it is,
/// the quote and the backslash behind a backslash, anything else as a
/// `\u00XX` escape of the code point with the byte's number.
pub open spec fn json_escape_byte(b: u8) -> Seq<u8> {
    if b == 34 || b == 92 {
        seq![92u8, b]
    } else if 32 <= b < 127 {
        seq![b]
    } else {
        seq![92u8, 117u8, 48u8, 48u8, hex_digit(b / 16), hex_digit(b % 16)]
    }
}

/// The characters between the quotes of the JSON string that stands for `s`.
pub open spec fn json_escape(s: Seq<u8>) -> Seq<u8>
    decreases s.len(),
{
    if s.len() == 0 {
        Seq::empty()
    } else {
        json_escape(s.drop_last()) + json_escape_byte(s.last())
    }
}

/// The JSON string literal for `s`, quotes included.
pub open spec fn json_string(s: Seq<u8>) -> Seq<u8> {
    seq![34u8] + json_escape(s) + seq![34u8]
}

fn push_escaped_byte(out: &mut Vec<u8>, b: u8)
    ensures
        final(out)@ == old(out)@ + json_escape_byte(b),
{
    if b == 34 || b == 92 {
        out.push(92);
        out.push(b);
        assert(out@ =~= old(out)@ + json_escape_byte(b));
    } else if 32 <= b && b < 127 {
        out.push(b);
        assert(out@ =~= old(out)@ + json_escape_byte(b));
    } else {
        out.push(92);
        out.push(117);
        out.push(48);
        out.push(48);
        out.push(hex_digit_of(b / 16));
        out.push(hex_digit_of(b % 16));
        assert(out@ =~= old(out)@ + json_escape_byte(b));
    }
}

/// Appends the JSON string literal for `s` to `out`.
pub fn push_json_string(out: &mut Vec<u8>, s: &[u8])
    ensures
        final(out)@ == old(out)@ + json_string(s@),
{
    out.push(34);
    let mut i: usize = 0;
    assert(old(out)@.push(34u8) + json_escape(s@.take(0)) =~= old(out)@.push(34u8));
    while i < s.len()
        invariant
            i <= s.len(),
            out@ == old(out)@.push(34u8) + json_escape(s@.take(i as int)),
        decreases s.len() - i,
    {
        proof {
            lemma_take_step(s@, i as int);
            let t = s@.take(i + 1);
            assert(json_escape(t) == json_escape(t.drop_last()) + json_escape_byte(t.last()));
            assert((old(out)@.push(34u8) + json_escape(s@.take(i as int))) + json_escape_byte(
                s@[i as int],
            ) =~= old(out)@.push(34u8) + json_escape(t));
        }
        push_escaped_byte(out, s[i]);
        i += 1;
    }
    proof {
        lemma_take_all(s@);
    }
    out.push(34);
    assert(out@ =~= old(out)@ + json_string(s@));
}

} // verus!
