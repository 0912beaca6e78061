//! Text helpers shared by the envelope rules, the blob layout and the store:
//! byte order of UTF-8 text, blank detection and zero-padded decimals.
use vstd::prelude::*;
use vstd::utf8::encode_utf8;

verus! {

/// `a` and `b` agree on every position below `k`.
pub open spec fn agree_below(a: Seq<u8>, b: Seq<u8>, k: int) -> bool {
    forall|j: int| 0 <= j < k ==> a[j] == b[j]
}

/// Lexicographic order of byte strings (`memcmp`, then length).
pub open spec fn bytes_le(a: Seq<u8>, b: Seq<u8>) -> bool {
    ||| (a.len() <= b.len() && agree_below(a, b, a.len() as int))
    ||| exists|k: int| 0 <= k < a.len() && k < b.len() && agree_below(a, b, k) && a[k] < b[k]
}

/// Order of text values as the store compares them: by their UTF-8 bytes.
pub open spec fn text_le(a: Seq<char>, b: Seq<char>) -> bool {
    bytes_le(encode_utf8(a), encode_utf8(b))
}

/// Whether `a` sorts at or before `b` by UTF-8 bytes.
pub fn text_le_exec(a: &str, b: &str) -> (r: bool)
    ensures
        r == text_le(a@, b@),
{
    let x = a.as_bytes();
    let y = b.as_bytes();
    let mut i: usize = 0;
    while i < x.len() && i < y.len() && x[i] == y[i]
        invariant
            i <= x@.len(),
            i <= y@.len(),
            agree_below(x@, y@, i as int),
        decreases x@.len() - i,
    {
        i = i + 1;
    }
    if i < x.len() && i < y.len() {
        let r = x[i] < y[i];
        if !r {
            assert(!(x@.len() <= y@.len() && agree_below(x@, y@, x@.len() as int)));
            assert forall|k: int|
                !(0 <= k < x@.len() && k < y@.len() && agree_below(x@, y@, k) && x@[k] < y@[k]) by {
                if 0 <= k < x@.len() && k < y@.len() && agree_below(x@, y@, k) && x@[k] < y@[k] {
                    if k < i {
                    } else if k > i {
                        assert(x@[i as int] == y@[i as int]);
                    }
                }
            }
        }
        r
    } else if i == x.len() {
        true
    } else {
        assert forall|k: int|
            !(0 <= k < x@.len() && k < y@.len() && agree_below(x@, y@, k) && x@[k] < y@[k]) by {
            if 0 <= k < x@.len() && k < y@.len() && agree_below(x@, y@, k) && x@[k] < y@[k] {
                assert(x@[k] == y@[k]);
            }
        }
        false
    }
}

/// The characters with the Unicode `White_Space` property.
pub open spec fn is_white_space(c: char) -> bool {
    let u = c as u32;
    ||| (0x09 <= u && u <= 0x0d)
    ||| u == 0x20
    ||| u == 0x85
    ||| u == 0xa0
    ||| u == 0x1680
    ||| (0x2000 <= u && u <= 0x200a)
    ||| u == 0x2028
    ||| u == 0x2029
    ||| u == 0x202f
    ||| u == 0x205f
    ||| u == 0x3000
}

/// Text that is empty once surrounding white space is trimmed.
pub open spec fn is_blank_text(s: Seq<char>) -> bool {
    forall|i: int| 0 <= i < s.len() ==> is_white_space(#[trigger] s[i])
}

/// Whether `c` has the Unicode `White_Space` property.
pub fn white_space(c: char) -> (r: bool)
    ensures
        r == is_white_space(c),
{
    let u = c as u32;
    (0x09 <= u && u <= 0x0d) || u == 0x20 || u == 0x85 || u == 0xa0 || u == 0x1680 || (0x2000
        <= u && u <= 0x200a) || u == 0x2028 || u == 0x2029 || u == 0x202f || u == 0x205f || u
        == 0x3000
}

/// Whether `s` holds nothing but white space.
pub fn is_blank(s: &str) -> (r: bool)
    ensures
        r == is_blank_text(s@),
{
    let n = s.unicode_len();
    let mut i: usize = 0;
    while i < n
        invariant
            n == s@.len(),
            i <= n,
            forall|j: int| 0 <= j < i ==> is_white_space(#[trigger] s@[j]),
        decreases n - i,
    {
        if !white_space(s.get_char(i)) {
            return false;
        }
        i = i + 1;
    }
    true
}

/// The decimal digits of `n`, most significant first, without leading zeros
/// (`0` is the single digit `0`).
pub open spec fn decimal(n: nat) -> Seq<char>
    decreases n,
{
    if n < 10 {
        seq![digit_char(n)]
    } else {
        decimal(n / 10).push(digit_char(n % 10))
    }
}

/// The character of a decimal digit.
pub open spec fn digit_char(d: nat) -> char {
    if d == 0 { '0' }
    else if d == 1 { '1' }
    else if d == 2 { '2' }
    else if d == 3 { '3' }
    else if d == 4 { '4' }
    else if d == 5 { '5' }
    else if d == 6 { '6' }
    else if d == 7 { '7' }
    else if d == 8 { '8' }
    else { '9' }
}

/// `k` copies of the character `0`.
pub open spec fn zeros(k: int) -> Seq<char> {
    Seq::new(if k > 0 { k as nat } else { 0 }, |i: int| '0')
}

/// The decimal digits of `n`, padded on the left with zeros to at least `width`.
pub open spec fn padded_decimal(n: nat, width: int) -> Seq<char> {
    zeros(width - decimal(n).len()) + decimal(n)
}

/// Relies on String::push: the character goes to the end of the string.
pub assume_specification[ String::push ](s: &mut String, ch: char)
    ensures
        final(s)@ == old(s)@.push(ch),
;

fn digit_to_char(d: u32) -> (c: char)
    requires
        d < 10,
    ensures
        c == digit_char(d as nat),
{
    if d == 0 { '0' }
    else if d == 1 { '1' }
    else if d == 2 { '2' }
    else if d == 3 { '3' }
    else if d == 4 { '4' }
    else if d == 5 { '5' }
    else if d == 6 { '6' }
    else if d == 7 { '7' }
    else if d == 8 { '8' }
    else { '9' }
}

/// Appends the decimal digits of `n` to `out`.
fn push_decimal(out: &mut String, n: u32)
    ensures
        final(out)@ == old(out)@ + decimal(n as nat),
    decreases n,
{
    if n >= 10 {
        push_decimal(out, n / 10);
        out.push(digit_to_char(n % 10));
        assert(final(out)@ =~= old(out)@ + decimal(n as nat));
    } else {
        out.push(digit_to_char(n));
        assert(final(out)@ =~= old(out)@ + decimal(n as nat));
    }
}

/// The number of decimal digits of `n`.
fn decimal_len(n: u32) -> (r: u64)
    ensures
        r as nat == decimal(n as nat).len(),
        r <= n as u64 + 1,
    decreases n,
{
    if n >= 10 {
        let k = decimal_len(n / 10);
        k + 1
    } else {
        1
    }
}

/// Appends the decimal digits of `n` to `out`, padded with zeros to at least `width`.
pub fn push_padded_decimal(out: &mut String, n: u32, width: u64)
    ensures
        final(out)@ == old(out)@ + padded_decimal(n as nat, width as int),
{
    let len = decimal_len(n);
    let ghost start = out@;
    if len < width {
        let mut i: u64 = len;
        while i < width
            invariant
                len <= i <= width,
                out@ == start + zeros(i - len),
            decreases width - i,
        {
            out.push('0');
            i = i + 1;
            assert(out@ =~= start + zeros(i - len));
        }
    } else {
        assert(out@ =~= start + zeros(width - len));
    }
    push_decimal(out, n);
    assert(out@ =~= start + padded_decimal(n as nat, width as int));
}

} // verus!
