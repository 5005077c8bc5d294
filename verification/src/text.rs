//! Byte-level text building: appending and decimal rendering.
//!
//! Every wire format of this crate is ASCII, so text is held as bytes and
//! described as `Seq<u8>`.

use vstd::prelude::*;

verus! {

/// `'\n'`, which ends every record.
pub const NEWLINE: u8 = 10;

/// `'#'`, which opens a tag list.
pub const HASH: u8 = 35;

/// `','`, which parts the tags of a list.
pub const COMMA: u8 = 44;

/// `':'`, which parts a name from a value.
pub const COLON: u8 = 58;

/// `'|'`, which parts the fields of a record.
pub const PIPE: u8 = 124;

/// The ASCII digit for `d`, for `d` below ten.
pub open spec fn digit(d: nat) -> u8 {
    (48 + d) as u8
}

/// The decimal digits of `n`, most significant first, without padding.
pub open spec fn digits(n: nat) -> Seq<u8>
    decreases n,
{
    if n < 10 {
        seq![digit(n)]
    } else {
        digits(n / 10).push(digit(n % 10))
    }
}

/// The decimal text of a signed integer: a minus sign, if negative, then the
/// digits of its magnitude.
pub open spec fn decimal(v: int) -> Seq<u8> {
    if v < 0 {
        seq![45u8] + digits((-v) as nat)
    } else {
        digits(v as nat)
    }
}

/// `count` ASCII zeros.
pub open spec fn zeros(count: nat) -> Seq<u8> {
    Seq::new(count, |i: int| 48u8)
}

/// The digits of `n`, padded on the left with zeros up to `width` bytes.
/// A number with more digits than `width` is left as it is.
pub open spec fn zero_padded(n: nat, width: nat) -> Seq<u8> {
    if digits(n).len() >= width {
        digits(n)
    } else {
        zeros((width - digits(n).len()) as nat) + digits(n)
    }
}

/// Every byte of `s` is an ASCII letter or digit.
pub open spec fn is_alphanumeric(s: Seq<u8>) -> bool {
    forall|i: int| 0 <= i < s.len() ==> alphanumeric_byte(#[trigger] s[i])
}

/// `b` is an ASCII letter or digit.
pub open spec fn alphanumeric_byte(b: u8) -> bool {
    (48 <= b <= 57) || (65 <= b <= 90) || (97 <= b <= 122)
}

/// Digits are bytes `'0'..='9'`.
pub proof fn lemma_digits_are_digits(n: nat)
    ensures
        forall|i: int| 0 <= i < digits(n).len() ==> 48 <= #[trigger] digits(n)[i] <= 57,
    decreases n,
{
    if n >= 10 {
        lemma_digits_are_digits(n / 10);
        let head = digits(n / 10);
        assert forall|i: int| 0 <= i < digits(n).len() implies 48 <= #[trigger] digits(n)[i]
            <= 57 by {
            if i < head.len() {
                assert(digits(n)[i] == head[i]);
            } else {
                assert(digits(n)[i] == digit(n % 10));
            }
        }
    }
}

/// Ten to the power of `exponent`.
pub open spec fn power_of_ten(exponent: nat) -> nat
    decreases exponent,
{
    if exponent == 0 {
        1
    } else {
        10 * power_of_ten((exponent - 1) as nat)
    }
}

/// A number below ten to the power of `width` has at most `width` digits,
/// and every number has at least one.
pub proof fn lemma_digits_fit(n: nat, width: nat)
    requires
        width >= 1,
        n < power_of_ten(width),
    ensures
        1 <= digits(n).len() <= width,
    decreases n,
{
    if n >= 10 {
        if width == 1 {
            assert(power_of_ten(1) == 10 * power_of_ten(0));
        }
        lemma_digits_fit(n / 10, (width - 1) as nat);
    }
}

/// The length of decimal texts: a number of 32 bits has at most ten
/// digits, one of 64 bits at most twenty, and a signed number of 64 bits
/// at most twenty bytes with its sign.
pub proof fn lemma_decimal_length(v: int)
    ensures
        0 <= v <= u32::MAX ==> 1 <= digits(v as nat).len() <= 10,
        0 <= v <= u64::MAX ==> 1 <= digits(v as nat).len() <= 20,
        i64::MIN <= v <= i64::MAX ==> 1 <= decimal(v).len() <= 20,
{
    reveal_with_fuel(power_of_ten, 21);
    assert(power_of_ten(10) == 10_000_000_000);
    assert(power_of_ten(19) == 10_000_000_000_000_000_000);
    assert(power_of_ten(20) == 100_000_000_000_000_000_000);
    if 0 <= v <= u32::MAX {
        lemma_digits_fit(v as nat, 10);
    }
    if 0 <= v <= u64::MAX {
        lemma_digits_fit(v as nat, 20);
    }
    if i64::MIN <= v < 0 {
        lemma_digits_fit((-v) as nat, 19);
    }
}

/// Every byte of `s` is a printable ASCII character, so that `s` is part
/// of one line of text.
pub open spec fn is_line(s: Seq<u8>) -> bool {
    forall|i: int| 0 <= i < s.len() ==> 32 <= #[trigger] s[i] < 127
}

/// Two texts make one line exactly if each of them is part of a line.
pub proof fn lemma_line_of_parts(a: Seq<u8>, b: Seq<u8>)
    ensures
        is_line(a + b) <==> is_line(a) && is_line(b),
{
    let whole = a + b;
    if is_line(whole) {
        assert forall|i: int| 0 <= i < a.len() implies 32 <= #[trigger] a[i] < 127 by {
            assert(whole[i] == a[i]);
        }
        assert forall|i: int| 0 <= i < b.len() implies 32 <= #[trigger] b[i] < 127 by {
            assert(whole[a.len() + i] == b[i]);
        }
    }
    if is_line(a) && is_line(b) {
        assert forall|i: int| 0 <= i < whole.len() implies 32 <= #[trigger] whole[i] < 127 by {
            if i < a.len() {
                assert(whole[i] == a[i]);
            } else {
                assert(whole[i] == b[i - a.len()]);
            }
        }
    }
}

/// The decimal text of a number is part of a line.
pub proof fn lemma_decimal_is_line(v: int)
    ensures
        is_line(decimal(v)),
        v >= 0 ==> is_line(digits(v as nat)),
{
    if v < 0 {
        lemma_digits_are_digits((-v) as nat);
        lemma_line_of_parts(seq![45u8], digits((-v) as nat));
    } else {
        lemma_digits_are_digits(v as nat);
    }
}

/// Letters and digits are part of a line.
pub proof fn lemma_alphanumeric_is_line(s: Seq<u8>)
    requires
        is_alphanumeric(s),
    ensures
        is_line(s),
{
    assert forall|i: int| 0 <= i < s.len() implies 32 <= #[trigger] s[i] < 127 by {
        assert(alphanumeric_byte(s[i]));
    }
}

/// The `i`-th of the 62 ASCII digits and letters: digits, then capitals,
/// then small letters.
pub open spec fn alphabet(i: int) -> u8 {
    if i < 10 {
        (48 + i) as u8
    } else if i < 36 {
        (55 + i) as u8
    } else {
        (61 + i) as u8
    }
}

/// The `i`-th of the 62 ASCII digits and letters.
pub fn alphabet_byte(i: usize) -> (b: u8)
    requires
        i < 62,
    ensures
        b == alphabet(i as int),
        alphanumeric_byte(b),
{
    if i < 10 {
        48 + i as u8
    } else if i < 36 {
        55 + i as u8
    } else {
        61 + i as u8
    }
}

/// A copy of `src`.
pub fn copy_of(src: &Vec<u8>) -> (r: Vec<u8>)
    ensures
        r@ == src@,
{
    let mut r: Vec<u8> = Vec::new();
    append(&mut r, src);
    assert(Seq::<u8>::empty() + src@ == src@);
    r
}

/// Appends `src` to `out`.
pub fn append(out: &mut Vec<u8>, src: &Vec<u8>)
    ensures
        final(out)@ == old(out)@ + src@,
{
    let mut i: usize = 0;
    while i < src.len()
        invariant
            i <= src.len(),
            out@ == old(out)@ + src@.subrange(0, i as int),
        decreases src.len() - i,
    {
        out.push(src[i]);
        i += 1;
        assert(src@.subrange(0, i as int) == src@.subrange(0, i - 1).push(src@[i - 1]));
    }
    assert(src@.subrange(0, src@.len() as int) == src@);
}

/// Appends the decimal text of `v` to `out`.
pub fn push_u64(out: &mut Vec<u8>, v: u64)
    ensures
        final(out)@ == old(out)@ + digits(v as nat),
{
    let mut rev: Vec<u8> = Vec::new();
    let mut rest: u64 = v;
    // The digits are produced least significant first, then copied back to front.
    while rest >= 10
        invariant
            digits(v as nat) == digits(rest as nat) + rev@.reverse(),
        decreases rest,
    {
        let d: u8 = (rest % 10) as u8;
        let ghost before = rev@;
        rev.push(48 + d);
        proof {
            assert(rev@.reverse() == seq![digit((rest % 10) as nat)] + before.reverse());
            assert(digits(rest as nat) == digits((rest / 10) as nat).push(digit((rest % 10) as nat)));
            assert(digits((rest / 10) as nat).push(digit((rest % 10) as nat)) + before.reverse()
                == digits((rest / 10) as nat) + (seq![digit((rest % 10) as nat)] + before.reverse()));
        }
        rest = rest / 10;
    }
    out.push(48 + (rest as u8));
    assert(digits(rest as nat) == seq![digit(rest as nat)]);
    let mut i: usize = rev.len();
    while i > 0
        invariant
            i <= rev.len(),
            out@ == old(out)@ + seq![digit(rest as nat)] + rev@.reverse().subrange(
                0,
                rev.len() - i,
            ),
        decreases i,
    {
        i -= 1;
        out.push(rev[i]);
        proof {
            let r = rev@.reverse();
            let k = rev.len() - i;
            assert(r.subrange(0, k) == r.subrange(0, k - 1).push(r[k - 1]));
        }
    }
    assert(rev@.reverse().subrange(0, rev.len() as int) == rev@.reverse());
}

/// Appends the decimal text of `v` to `out`.
pub fn push_i64(out: &mut Vec<u8>, v: i64)
    ensures
        final(out)@ == old(out)@ + decimal(v as int),
{
    if v < 0 {
        out.push(45);
        // The magnitude of `i64::MIN` does not fit in `i64`, so negate in `u64`.
        let magnitude: u64 = if v == i64::MIN {
            9223372036854775808
        } else {
            (-v) as u64
        };
        push_u64(out, magnitude);
        assert(old(out)@.push(45u8) + digits(magnitude as nat) == old(out)@ + (seq![45u8] + digits(
            magnitude as nat,
        )));
    } else {
        push_u64(out, v as u64);
    }
}

/// Appends `v` in decimal, padded with zeros on the left to at least `width`
/// digits.
pub fn push_zero_padded(out: &mut Vec<u8>, v: u32, width: usize)
    requires
        width <= 10,
    ensures
        final(out)@ == old(out)@ + zero_padded(v as nat, width as nat),
{
    let mut body: Vec<u8> = Vec::new();
    push_u64(&mut body, v as u64);
    assert(body@ == digits(v as nat)) by {
        assert(Seq::<u8>::empty() + digits(v as nat) == digits(v as nat));
    }
    let mut pad: usize = 0;
    if body.len() < width {
        let missing: usize = width - body.len();
        while pad < missing
            invariant
                pad <= missing,
                out@ == old(out)@ + zeros(pad as nat),
            decreases missing - pad,
        {
            out.push(48);
            pad += 1;
            assert(zeros(pad as nat) == zeros((pad - 1) as nat).push(48u8));
        }
        append(out, &body);
        assert(old(out)@ + zeros(pad as nat) + body@ == old(out)@ + (zeros(pad as nat) + body@));
    } else {
        append(out, &body);
    }
}

} // verus!
