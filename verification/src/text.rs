//! Decimal text and the small string tools the other modules build on.

use vstd::prelude::*;
use vstd::std_specs::iter::IteratorSpec;

verus! {

/// `String::push` of std appends exactly one character to the string.
pub assume_specification[ String::push ](s: &mut String, c: char)
    ensures
        final(s)@ == old(s)@.push(c),
;

/// The character that shows the digit `d`, for `0 <= d <= 9`.
pub open spec fn digit_char(d: int) -> char {
    ((d + 48) as u8) as char
}

/// True of the ten characters `'0'` to `'9'`.
pub open spec fn is_digit(c: char) -> bool {
    '0' <= c <= '9'
}

/// The value of a digit character.
pub open spec fn digit_value(c: char) -> int {
    (c as u32) as int - 48
}

/// True when every character of `s` is a decimal digit.
pub open spec fn all_digits(s: Seq<char>) -> bool {
    forall|i: int| 0 <= i < s.len() ==> is_digit(#[trigger] s[i])
}

/// The number that a sequence of digits writes in base ten (zero for the
/// empty sequence).
pub open spec fn digits_value(s: Seq<char>) -> nat
    decreases s.len(),
{
    if s.len() == 0 {
        0
    } else {
        (digits_value(s.drop_last()) * 10 + digit_value(s.last())) as nat
    }
}

/// The decimal digits of `n`, most significant first, with as many leading
/// zeros as it takes to reach `width` characters. A width of zero counts as
/// one: zero itself is written `"0"`.
pub open spec fn padded_decimal(n: nat, width: nat) -> Seq<char>
    decreases n + width,
{
    if n < 10 && width <= 1 {
        seq![digit_char(n as int)]
    } else {
        padded_decimal(n / 10, if width > 1 { (width - 1) as nat } else { 1 }).push(
            digit_char((n % 10) as int),
        )
    }
}

/// The decimal digits of `n` without leading zeros.
pub open spec fn decimal(n: nat) -> Seq<char> {
    padded_decimal(n, 1)
}

/// A digit's character is a digit and is read back as the same number.
pub proof fn lemma_digit_char(d: int)
    requires
        0 <= d <= 9,
    ensures
        is_digit(digit_char(d)),
        digit_value(digit_char(d)) == d,
        (digit_char(d) == '0') == (d == 0),
{
}

/// A digit character is the character of its value.
pub proof fn lemma_digit_value(c: char)
    requires
        is_digit(c),
    ensures
        0 <= digit_value(c) <= 9,
        digit_char(digit_value(c)) == c,
{
}

/// What [`padded_decimal`] writes: only digits, at least `width` of them and
/// at least one, no zero in front beyond the padding, and the number `n` when
/// read back.
pub proof fn lemma_padded_decimal(n: nat, width: nat)
    ensures
        all_digits(padded_decimal(n, width)),
        padded_decimal(n, width).len() >= width,
        padded_decimal(n, width).len() >= 1,
        padded_decimal(n, width).len() > width && padded_decimal(n, width).len() > 1
            ==> padded_decimal(n, width)[0] != '0',
        padded_decimal(n, width).len() > width ==> n >= 1 || width == 0,
        n >= 10 ==> padded_decimal(n, width).len() >= 2,
        digits_value(padded_decimal(n, width)) == n,
    decreases n + width,
{
    let p = padded_decimal(n, width);
    lemma_digit_char((n % 10) as int);
    if n < 10 && width <= 1 {
        assert(p.drop_last() =~= Seq::<char>::empty());
        assert(digits_value(p.drop_last()) == 0);
    } else {
        let w: nat = if width > 1 { (width - 1) as nat } else { 1 };
        let q = padded_decimal(n / 10, w);
        lemma_padded_decimal(n / 10, w);
        assert(p == q.push(digit_char((n % 10) as int)));
        assert(p.drop_last() =~= q);
        assert(p[0] == q[0]);
        assert forall|i: int| 0 <= i < p.len() implies is_digit(#[trigger] p[i]) by {
            if i < q.len() {
                assert(p[i] == q[i]);
            }
        }
        if width <= 1 {
            // Here n >= 10, so the first digit written is not a padding zero.
            assert(n / 10 >= 1);
            if q.len() == 1 {
                assert(q =~= seq![digit_char((n / 10) as int)]);
                lemma_digit_char((n / 10) as int);
            }
        }
    }
}

/// A sequence of digits that begins with a digit other than zero writes a
/// number of at least one.
pub proof fn lemma_leading_digit(s: Seq<char>)
    requires
        all_digits(s),
        s.len() >= 1,
        s[0] != '0',
    ensures
        digits_value(s) >= 1,
    decreases s.len(),
{
    if s.len() == 1 {
        assert(s.drop_last() =~= Seq::<char>::empty());
        assert(digits_value(s.drop_last()) == 0);
        lemma_digit_value(s[0]);
    } else {
        let t = s.drop_last();
        assert(t[0] == s[0]);
        lemma_leading_digit(t);
        lemma_digit_value(s.last());
    }
}

/// Reading a canonical sequence of digits and writing the number again gives
/// the same sequence: `s` is canonical for `width` when it has exactly
/// `width` digits, or more and no zero in front.
pub proof fn lemma_digits_canonical(s: Seq<char>, width: nat)
    requires
        all_digits(s),
        width >= 1,
        s.len() >= width,
        s.len() == width || s[0] != '0',
    ensures
        padded_decimal(digits_value(s), width) == s,
    decreases s.len(),
{
    let v = digits_value(s);
    let t = s.drop_last();
    lemma_digit_value(s.last());
    if s.len() == 1 {
        assert(t =~= Seq::<char>::empty());
        assert(digits_value(t) == 0);
        assert(v == digit_value(s.last()));
        assert(padded_decimal(v, width) =~= s);
    } else {
        let w: nat = if width > 1 { (width - 1) as nat } else { 1 };
        assert(t[0] == s[0]);
        assert(all_digits(t)) by {
            assert forall|i: int| 0 <= i < t.len() implies is_digit(#[trigger] t[i]) by {
                assert(t[i] == s[i]);
            }
        }
        lemma_digits_canonical(t, w);
        if width <= 1 {
            lemma_leading_digit(t);
        }
        assert(v / 10 == digits_value(t));
        assert(v % 10 == digit_value(s.last()));
        assert(padded_decimal(v, width) =~= s);
    }
}

/// Dropping digits from the end never makes the number larger.
pub proof fn lemma_prefix_value(s: Seq<char>, k: int)
    requires
        all_digits(s),
        0 <= k <= s.len(),
    ensures
        digits_value(s.take(k)) <= digits_value(s),
    decreases s.len() - k,
{
    if k == s.len() {
        assert(s.take(k) =~= s);
    } else {
        let t = s.drop_last();
        assert(all_digits(t)) by {
            assert forall|i: int| 0 <= i < t.len() implies is_digit(#[trigger] t[i]) by {
                assert(t[i] == s[i]);
            }
        }
        lemma_prefix_value(t, k);
        assert(t.take(k) =~= s.take(k));
        lemma_digit_value(s.last());
    }
}

/// Executable form of [`digit_char`].
pub(crate) fn digit(d: u8) -> (c: char)
    requires
        d < 10,
    ensures
        c == digit_char(d as int),
        is_digit(c),
{
    (d + 48) as char
}

/// Appends the decimal digits of `n`, padded with zeros to `width`.
pub fn push_padded_decimal(out: &mut String, n: u32, width: u32)
    ensures
        final(out)@ == old(out)@ + padded_decimal(n as nat, width as nat),
    decreases n + width,
{
    if n < 10 && width <= 1 {
        out.push(digit(n as u8));
        assert(final(out)@ =~= old(out)@ + padded_decimal(n as nat, width as nat));
    } else {
        let rest: u32 = if width > 1 { width - 1 } else { 1 };
        push_padded_decimal(out, n / 10, rest);
        out.push(digit((n % 10) as u8));
        assert(final(out)@ =~= old(out)@ + padded_decimal(n as nat, width as nat));
    }
}

/// Appends the decimal digits of `n`, without leading zeros.
pub fn push_decimal(out: &mut String, n: u32)
    ensures
        final(out)@ == old(out)@ + decimal(n as nat),
{
    push_padded_decimal(out, n, 1);
}

/// The characters of a string slice, in order.
pub(crate) fn chars_of(s: &str) -> (v: Vec<char>)
    ensures
        v@ == s@,
{
    let mut v: Vec<char> = Vec::new();
    let mut it = s.chars();
    loop
        invariant
            v@ + it.remaining() == s@,
        ensures
            v@ == s@,
        decreases s@.len() - v@.len(),
    {
        match it.next() {
            Some(c) => v.push(c),
            None => break,
        }
    }
    v
}

/// Reads the digits in `chars[from..to]` as a number, as long as it stays
/// within `limit`.
pub(crate) fn read_digits(chars: &Vec<char>, from: usize, to: usize, limit: u32) -> (r: Option<u32>)
    requires
        from <= to <= chars@.len(),
    ensures
        r is Some <==> all_digits(chars@.subrange(from as int, to as int)) && digits_value(
            chars@.subrange(from as int, to as int),
        ) <= limit,
        r matches Some(v) ==> v == digits_value(chars@.subrange(from as int, to as int)),
{
    let ghost whole = chars@.subrange(from as int, to as int);
    let mut value: u64 = 0;
    let mut i: usize = from;
    while i < to
        invariant
            from <= i <= to <= chars@.len(),
            whole == chars@.subrange(from as int, to as int),
            all_digits(chars@.subrange(from as int, i as int)),
            value == digits_value(chars@.subrange(from as int, i as int)),
            value <= limit,
        decreases to - i,
    {
        let c = chars[i];
        let ghost before = chars@.subrange(from as int, i as int);
        let ghost after = chars@.subrange(from as int, i + 1);
        assert(after.drop_last() =~= before);
        assert(after.last() == c);
        assert(whole[i - from] == c);
        if !('0' <= c && c <= '9') {
            assert(!is_digit(whole[i - from]));
            return None;
        }
        let d: u64 = (c as u32 - 48) as u64;
        let next: u64 = value * 10 + d;
        assert(next == digits_value(after));
        assert(all_digits(after)) by {
            assert forall|k: int| 0 <= k < after.len() implies is_digit(#[trigger] after[k]) by {
                if k < before.len() {
                    assert(after[k] == before[k]);
                }
            }
        }
        if next > limit as u64 {
            proof {
                if all_digits(whole) {
                    assert(whole.take(i + 1 - from) =~= after);
                    lemma_prefix_value(whole, i + 1 - from);
                }
            }
            return None;
        }
        value = next;
        i = i + 1;
    }
    assert(chars@.subrange(from as int, i as int) =~= whole);
    Some(value as u32)
}

} // verus!
