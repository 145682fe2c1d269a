//! Real numbers, held as the decimal literals that denote them.
//!
//! A literal is an optional sign followed by `inf`, `infinity` or `nan` in any
//! mix of cases, or by a decimal number: digits with at most one point among
//! them and at least one digit, then optionally `e` or `E`, an optional sign
//! and at least one digit. Nothing may stand before or behind it.

use vstd::prelude::*;
use vstd::string::StringExecFns;

verus! {

/// Whether `c` is a decimal digit.
pub open spec fn is_digit(c: char) -> bool {
    '0' <= c <= '9'
}

/// Whether `c` is a sign.
pub open spec fn is_sign(c: char) -> bool {
    c == '+' || c == '-'
}

/// Whether `c` is one of two characters: a letter in its two cases.
pub open spec fn either(c: char, a: char, b: char) -> bool {
    c == a || c == b
}

/// The number that a digit stands for.
pub open spec fn digit_value(c: char) -> nat {
    (c as int - '0' as int) as nat
}

/// The digit that stands for a number below ten.
pub open spec fn digit_char(d: nat) -> char {
    ('0' as int + d) as char
}

/// The number that a run of digits denotes.
pub open spec fn value(d: Seq<char>) -> nat
    decreases d.len(),
{
    if d.len() == 0 {
        0
    } else {
        value(d.drop_last()) * 10 + digit_value(d.last())
    }
}

/// Ten to the `n`.
pub open spec fn pow10(n: nat) -> nat
    decreases n,
{
    if n == 0 {
        1
    } else {
        10 * pow10((n - 1) as nat)
    }
}

/// Where the run of digits that starts at `from` ends.
pub open spec fn digits_end(s: Seq<char>, from: int) -> int
    decreases s.len() - from,
{
    if 0 <= from < s.len() && is_digit(s[from]) {
        digits_end(s, from + 1)
    } else {
        from
    }
}

/// Whether `b` spells `inf`, in any mix of cases.
pub open spec fn is_inf(b: Seq<char>) -> bool {
    &&& b.len() == 3
    &&& either(b[0], 'i', 'I')
    &&& either(b[1], 'n', 'N')
    &&& either(b[2], 'f', 'F')
}

/// Whether `b` spells `infinity`, in any mix of cases.
pub open spec fn is_infinity(b: Seq<char>) -> bool {
    &&& b.len() == 8
    &&& either(b[0], 'i', 'I')
    &&& either(b[1], 'n', 'N')
    &&& either(b[2], 'f', 'F')
    &&& either(b[3], 'i', 'I')
    &&& either(b[4], 'n', 'N')
    &&& either(b[5], 'i', 'I')
    &&& either(b[6], 't', 'T')
    &&& either(b[7], 'y', 'Y')
}

/// Whether `b` spells `nan`, in any mix of cases.
pub open spec fn is_nan(b: Seq<char>) -> bool {
    &&& b.len() == 3
    &&& either(b[0], 'n', 'N')
    &&& either(b[1], 'a', 'A')
    &&& either(b[2], 'n', 'N')
}

/// What a literal denotes.
pub enum Reading {
    /// The digits of the number, those before and those behind the point in
    /// one run, and the number of digits that stand before the point once the
    /// exponent is applied: the number is `0.digits` times ten to the `point`.
    Finite { negative: bool, digits: Seq<char>, point: int },
    Infinite { negative: bool },
    NotANumber,
}

/// Where the part behind the sign starts.
pub open spec fn unsigned_from(s: Seq<char>) -> int {
    if s.len() > 0 && is_sign(s[0]) {
        1
    } else {
        0
    }
}

/// Whether `s` starts with a minus sign.
pub open spec fn is_negative(s: Seq<char>) -> bool {
    s.len() > 0 && s[0] == '-'
}

/// What the decimal number that starts at `start` denotes, if `s` holds one
/// there and nothing else.
pub open spec fn finite_reading(s: Seq<char>, start: int) -> Option<Reading> {
    let a = digits_end(s, start);
    let pointed = a < s.len() && s[a] == '.';
    let b = if pointed {
        digits_end(s, a + 1)
    } else {
        a
    };
    let whole = s.subrange(start, a);
    let fraction = if pointed {
        s.subrange(a + 1, b)
    } else {
        Seq::empty()
    };
    if whole.len() + fraction.len() == 0 {
        None
    } else if b == s.len() {
        Some(
            Reading::Finite {
                negative: is_negative(s),
                digits: whole + fraction,
                point: whole.len() as int,
            },
        )
    } else if either(s[b], 'e', 'E') {
        let x = if b + 1 < s.len() && is_sign(s[b + 1]) {
            b + 2
        } else {
            b + 1
        };
        let c = digits_end(s, x);
        if x < c && c == s.len() {
            let e = value(s.subrange(x, c)) as int;
            Some(
                Reading::Finite {
                    negative: is_negative(s),
                    digits: whole + fraction,
                    point: whole.len() + (if s[b + 1] == '-' {
                        -e
                    } else {
                        e
                    }),
                },
            )
        } else {
            None
        }
    } else {
        None
    }
}

/// What `s` denotes, if it is a literal.
pub open spec fn reading(s: Seq<char>) -> Option<Reading> {
    let body = s.skip(unsigned_from(s));
    if is_inf(body) || is_infinity(body) {
        Some(Reading::Infinite { negative: is_negative(s) })
    } else if is_nan(body) {
        Some(Reading::NotANumber)
    } else {
        finite_reading(s, unsigned_from(s))
    }
}

/// Whether `s` is a literal of a real number.
pub open spec fn is_real(s: Seq<char>) -> bool {
    reading(s) is Some
}

/// The whole part of the number `0.digits` times ten to the `point`.
pub open spec fn magnitude(digits: Seq<char>, point: int) -> nat {
    if point <= 0 {
        0
    } else if point <= digits.len() {
        value(digits.take(point))
    } else {
        value(digits) * pow10((point - digits.len()) as nat)
    }
}

/// The integer nearest to `v` among those that fit 32 bits with a sign.
pub open spec fn clamped(v: int) -> int {
    if v < -0x8000_0000 {
        -0x8000_0000
    } else if v > 0x7fff_ffff {
        0x7fff_ffff
    } else {
        v
    }
}

/// The number that `s` denotes, cut off at the point and brought into the
/// range of 32 bits with a sign: the fraction is dropped, what lies beyond the
/// range becomes the nearest bound, and what is no number becomes zero.
pub open spec fn truncation(s: Seq<char>) -> int {
    match reading(s) {
        Some(Reading::Finite { negative, digits, point }) => if negative {
            clamped(-(magnitude(digits, point) as int))
        } else {
            clamped(magnitude(digits, point) as int)
        },
        Some(Reading::Infinite { negative }) => if negative {
            -0x8000_0000
        } else {
            0x7fff_ffff
        },
        _ => 0,
    }
}

/// The digits of a natural number, without leading zeros.
pub open spec fn natural_text(n: nat) -> Seq<char>
    decreases n,
{
    if n < 10 {
        seq![digit_char(n)]
    } else {
        natural_text(n / 10).push(digit_char(n % 10))
    }
}

/// The decimal literal of an integer: a minus sign where it is negative, then
/// its digits.
pub open spec fn integer_text(v: int) -> Seq<char> {
    if v < 0 {
        seq!['-'] + natural_text((-v) as nat)
    } else {
        natural_text(v as nat)
    }
}

/// A run of digits that reaches the end of the text, or a character that is
/// no digit, is where `digits_end` stops.
pub proof fn lemma_digits_end(s: Seq<char>, from: int, to: int)
    requires
        0 <= from <= to <= s.len(),
        forall|k: int| from <= k < to ==> is_digit(#[trigger] s[k]),
        to == s.len() || !is_digit(s[to]),
    ensures
        digits_end(s, from) == to,
    decreases to - from,
{
    if from < to {
        lemma_digits_end(s, from + 1, to);
    }
}

/// The text of a natural number is made of digits, at least one, and denotes
/// the number.
pub proof fn lemma_natural_text(n: nat)
    ensures
        natural_text(n).len() >= 1,
        forall|k: int| 0 <= k < natural_text(n).len() ==> is_digit(#[trigger] natural_text(n)[k]),
        value(natural_text(n)) == n,
    decreases n,
{
    let t = natural_text(n);
    if n < 10 {
        assert(t.drop_last() =~= Seq::<char>::empty());
        assert(value(t.drop_last()) == 0);
        assert(t.last() == digit_char(n));
    } else {
        lemma_natural_text(n / 10);
        assert(t.drop_last() =~= natural_text(n / 10));
        assert(t.last() == digit_char(n % 10));
    }
}

/// The text of an integer of 32 bits with a sign is a literal, and it denotes
/// that integer.
pub proof fn lemma_integer_text(v: int)
    requires
        -0x8000_0000 <= v <= 0x7fff_ffff,
    ensures
        is_real(integer_text(v)),
        truncation(integer_text(v)) == v,
{
    let t = integer_text(v);
    let n = if v < 0 {
        (-v) as nat
    } else {
        v as nat
    };
    let d = natural_text(n);
    lemma_natural_text(n);
    let start = unsigned_from(t);
    if v < 0 {
        assert(t[0] == '-');
        assert(start == 1);
        assert forall|k: int| 1 <= k < t.len() implies is_digit(#[trigger] t[k]) by {
            assert(t[k] == d[k - 1]);
        }
    } else {
        assert(t == d);
        assert(is_digit(t[0]));
        assert(start == 0);
    }
    let body = t.skip(start);
    assert(body =~= d);
    assert(is_digit(body[0]));
    lemma_digits_end(t, start, t.len() as int);
    assert(t.subrange(start, t.len() as int) =~= d);
    assert(d + Seq::<char>::empty() =~= d);
    assert(d.take(d.len() as int) =~= d);
}

/// The layout of a decimal number inside a literal, as indices into its
/// characters.
struct Layout {
    negative: bool,
    /// Where the digits before the point start.
    start: usize,
    /// Where they end.
    whole_end: usize,
    /// Where the digits behind the point start.
    fraction: usize,
    /// Where they end.
    fraction_end: usize,
    /// Whether an exponent follows, whether it is negative, and where its
    /// digits start; they run to the end of the literal.
    scaled: bool,
    scaled_down: bool,
    exponent: usize,
}

/// What a literal was found to be.
enum Shape {
    Finite(Layout),
    Infinite { negative: bool },
    NotANumber,
}

impl Layout {
    spec fn fits(self, s: Seq<char>) -> bool {
        &&& self.start <= self.whole_end <= self.fraction <= self.fraction_end <= s.len()
        &&& self.scaled ==> self.fraction_end < self.exponent < s.len()
        &&& forall|k: int| self.start <= k < self.whole_end ==> is_digit(#[trigger] s[k])
        &&& forall|k: int| self.fraction <= k < self.fraction_end ==> is_digit(#[trigger] s[k])
        &&& self.scaled ==> forall|k: int| self.exponent <= k < s.len() ==> is_digit(#[trigger] s[k])
    }

    spec fn digits(self, s: Seq<char>) -> Seq<char> {
        s.subrange(self.start as int, self.whole_end as int) + s.subrange(
            self.fraction as int,
            self.fraction_end as int,
        )
    }

    spec fn scale(self, s: Seq<char>) -> int {
        if !self.scaled {
            0
        } else if self.scaled_down {
            -(value(s.subrange(self.exponent as int, s.len() as int)) as int)
        } else {
            value(s.subrange(self.exponent as int, s.len() as int)) as int
        }
    }

    spec fn reading(self, s: Seq<char>) -> Reading {
        Reading::Finite {
            negative: self.negative,
            digits: self.digits(s),
            point: (self.whole_end - self.start) + self.scale(s),
        }
    }
}

impl Shape {
    spec fn reading(self, s: Seq<char>) -> Reading {
        match self {
            Shape::Finite(l) => l.reading(s),
            Shape::Infinite { negative } => Reading::Infinite { negative },
            Shape::NotANumber => Reading::NotANumber,
        }
    }

    spec fn fits(self, s: Seq<char>) -> bool {
        match self {
            Shape::Finite(l) => l.fits(s),
            _ => true,
        }
    }
}

fn digit(c: char) -> (r: bool)
    ensures
        r == is_digit(c),
{
    '0' <= c && c <= '9'
}

fn sign(c: char) -> (r: bool)
    ensures
        r == is_sign(c),
{
    c == '+' || c == '-'
}

fn one_of(c: char, a: char, b: char) -> (r: bool)
    ensures
        r == either(c, a, b),
{
    c == a || c == b
}

fn digit_number(c: char) -> (r: u8)
    requires
        is_digit(c),
    ensures
        r == digit_value(c),
        r <= 9,
{
    (c as u32 - '0' as u32) as u8
}

/// The characters of `s`.
fn characters(s: &str) -> (r: Vec<char>)
    ensures
        r@ == s@,
{
    let mut out: Vec<char> = Vec::new();
    for c in it: s.chars()
        invariant
            it.seq() == s@,
            out@ == s@.take(it.index() as int),
    {
        out.push(c);
        assert(s@.take(it.index() + 1) =~= s@.take(it.index() as int).push(c));
    }
    assert(s@.take(s@.len() as int) =~= s@);
    out
}

fn digits_until(cs: &Vec<char>, from: usize) -> (r: usize)
    requires
        from <= cs.len(),
    ensures
        r == digits_end(cs@, from as int),
        from <= r <= cs.len(),
        forall|k: int| from <= k < r ==> is_digit(#[trigger] cs@[k]),
{
    let mut i: usize = from;
    while i < cs.len() && digit(cs[i])
        invariant
            from <= i <= cs.len(),
            digits_end(cs@, i as int) == digits_end(cs@, from as int),
            forall|k: int| from <= k < i ==> is_digit(#[trigger] cs@[k]),
        decreases cs.len() - i,
    {
        i = i + 1;
    }
    i
}

fn infinite(cs: &Vec<char>, from: usize) -> (r: bool)
    requires
        from <= cs.len(),
    ensures
        r == (is_inf(cs@.skip(from as int)) || is_infinity(cs@.skip(from as int))),
{
    let n: usize = cs.len() - from;
    if n != 3 && n != 8 {
        return false;
    }
    let short = one_of(cs[from], 'i', 'I') && one_of(cs[from + 1], 'n', 'N') && one_of(
        cs[from + 2],
        'f',
        'F',
    );
    if n == 3 {
        short
    } else {
        short && one_of(cs[from + 3], 'i', 'I') && one_of(cs[from + 4], 'n', 'N') && one_of(
            cs[from + 5],
            'i',
            'I',
        ) && one_of(cs[from + 6], 't', 'T') && one_of(cs[from + 7], 'y', 'Y')
    }
}

fn not_a_number(cs: &Vec<char>, from: usize) -> (r: bool)
    requires
        from <= cs.len(),
    ensures
        r == is_nan(cs@.skip(from as int)),
{
    cs.len() - from == 3 && one_of(cs[from], 'n', 'N') && one_of(cs[from + 1], 'a', 'A')
        && one_of(cs[from + 2], 'n', 'N')
}

/// Takes a literal apart, or finds that there is none.
fn shape(cs: &Vec<char>) -> (r: Option<Shape>)
    ensures
        match r {
            Some(sh) => reading(cs@) == Some(sh.reading(cs@)) && sh.fits(cs@),
            None => reading(cs@) is None,
        },
{
    let len = cs.len();
    let negative = len > 0 && cs[0] == '-';
    let start: usize = if len > 0 && sign(cs[0]) {
        1
    } else {
        0
    };
    if infinite(cs, start) {
        return Some(Shape::Infinite { negative });
    }
    if not_a_number(cs, start) {
        return Some(Shape::NotANumber);
    }
    let whole_end = digits_until(cs, start);
    let pointed = whole_end < len && cs[whole_end] == '.';
    let fraction: usize = if pointed {
        whole_end + 1
    } else {
        whole_end
    };
    let fraction_end: usize = if pointed {
        digits_until(cs, fraction)
    } else {
        whole_end
    };
    proof {
        if !pointed {
            assert(cs@.subrange(fraction as int, fraction_end as int) =~= Seq::<char>::empty());
        }
    }
    if (whole_end - start) + (fraction_end - fraction) == 0 {
        return None;
    }
    if fraction_end == len {
        return Some(
            Shape::Finite(
                Layout {
                    negative,
                    start,
                    whole_end,
                    fraction,
                    fraction_end,
                    scaled: false,
                    scaled_down: false,
                    exponent: len,
                },
            ),
        );
    }
    if !one_of(cs[fraction_end], 'e', 'E') {
        return None;
    }
    let signed = fraction_end + 1 < len && sign(cs[fraction_end + 1]);
    let exponent: usize = if signed {
        fraction_end + 2
    } else {
        fraction_end + 1
    };
    let end = digits_until(cs, exponent);
    if exponent < end && end == len {
        Some(
            Shape::Finite(
                Layout {
                    negative,
                    start,
                    whole_end,
                    fraction,
                    fraction_end,
                    scaled: true,
                    scaled_down: cs[fraction_end + 1] == '-',
                    exponent,
                },
            ),
        )
    } else {
        None
    }
}

/// The bound at which the magnitude of a number stops mattering: one more
/// than the largest integer of 32 bits with a sign.
const CAP: u64 = 0x8000_0000;

/// The bound at which an exponent stops mattering.
const FAR: u128 = 0x40_0000_0000_0000_0000;

spec fn capped(v: nat) -> nat {
    if v < CAP {
        v
    } else {
        CAP as nat
    }
}

proof fn lemma_pow10_grows(a: nat, b: nat)
    requires
        a <= b,
    ensures
        pow10(a) <= pow10(b),
        pow10(a) >= 1,
    decreases b,
{
    if a < b {
        lemma_pow10_grows(a, (b - 1) as nat);
    } else if a > 0 {
        lemma_pow10_grows((a - 1) as nat, (a - 1) as nat);
    }
}

/// Ten zeros or more behind a number leave nothing of it below the bound.
proof fn lemma_far_shift(v: nat, z: nat)
    requires
        z >= 10,
    ensures
        capped(v * pow10(z)) == if v == 0 {
            0nat
        } else {
            CAP as nat
        },
{
    lemma_pow10_grows(10, z);
    assert(pow10(10) == 10_000_000_000nat) by {
        reveal_with_fuel(pow10, 11);
    }
    if v > 0 {
        assert(v * pow10(z) >= pow10(z)) by (nonlinear_arith)
            requires
                v >= 1,
        ;
    } else {
        assert(v * pow10(z) == 0) by (nonlinear_arith)
            requires
                v == 0,
        ;
    }
}

/// The value of the exponent's digits, or `FAR` where it is that large.
fn exponent_value(cs: &Vec<char>, from: usize) -> (r: u128)
    requires
        from <= cs.len(),
        forall|k: int| from <= k < cs.len() ==> is_digit(#[trigger] cs@[k]),
    ensures
        r <= FAR,
        r < FAR ==> r == value(cs@.subrange(from as int, cs.len() as int)),
        r == FAR ==> value(cs@.subrange(from as int, cs.len() as int)) >= FAR,
{
    let mut acc: u128 = 0;
    let mut i: usize = from;
    while i < cs.len()
        invariant
            from <= i <= cs.len(),
            forall|k: int| from <= k < cs.len() ==> is_digit(#[trigger] cs@[k]),
            acc <= FAR,
            acc < FAR ==> acc == value(cs@.subrange(from as int, i as int)),
            acc == FAR ==> value(cs@.subrange(from as int, i as int)) >= FAR,
        decreases cs.len() - i,
    {
        let d = digit_number(cs[i]);
        proof {
            let next = cs@.subrange(from as int, i + 1);
            assert(next.drop_last() =~= cs@.subrange(from as int, i as int));
            assert(next.last() == cs@[i as int]);
        }
        acc = acc * 10 + d as u128;
        if acc > FAR {
            acc = FAR;
        }
        i = i + 1;
    }
    acc
}

/// The digit at place `k` of the digits of a number.
fn digit_at(cs: &Vec<char>, l: &Layout, k: usize) -> (r: u8)
    requires
        l.fits(cs@),
        k < l.digits(cs@).len(),
    ensures
        r == digit_value(l.digits(cs@)[k as int]),
        r <= 9,
{
    let whole: usize = l.whole_end - l.start;
    if k < whole {
        digit_number(cs[l.start + k])
    } else {
        digit_number(cs[l.fraction + (k - whole)])
    }
}

/// The whole part of a number, or `CAP` where it is that large.
fn whole_part(cs: &Vec<char>, l: &Layout) -> (r: u64)
    requires
        l.fits(cs@),
    ensures
        r == capped(magnitude(l.digits(cs@), (l.whole_end - l.start) + l.scale(cs@))),
{
    let ghost digits = l.digits(cs@);
    let ghost point = (l.whole_end - l.start) + l.scale(cs@);
    let count: usize = (l.whole_end - l.start) + (l.fraction_end - l.fraction);
    let whole: usize = l.whole_end - l.start;
    let far: u128 = if l.scaled {
        exponent_value(cs, l.exponent)
    } else {
        0
    };
    if l.scaled_down && l.scaled {
        if far > whole as u128 {
            return 0;
        }
    }
    // The place of the point among the digits, as far as it matters.
    let reach: u128 = if l.scaled_down && l.scaled {
        whole as u128 - far
    } else {
        whole as u128 + far
    };
    assert(reach < FAR ==> reach == point);
    assert(reach >= FAR ==> point >= FAR);
    let mut acc: u64 = 0;
    let mut k: usize = 0;
    while k < count && (k as u128) < reach
        invariant
            l.fits(cs@),
            digits == l.digits(cs@),
            count == digits.len(),
            k <= count,
            k <= reach,
            acc == capped(value(digits.take(k as int))),
        decreases count - k,
    {
        let d = digit_at(cs, l, k);
        proof {
            let next = digits.take(k + 1);
            assert(next.drop_last() =~= digits.take(k as int));
            assert(next.last() == digits[k as int]);
        }
        acc = acc * 10 + d as u64;
        if acc > CAP {
            acc = CAP;
        }
        k = k + 1;
    }
    if reach <= count as u128 {
        return acc;
    }
    assert(digits.take(count as int) =~= digits);
    let beyond: u128 = reach - count as u128;
    let mut j: u128 = 0;
    assert(value(digits) * pow10(0) == value(digits)) by (nonlinear_arith)
        requires
            pow10(0) == 1,
    ;
    while j < beyond && j < 10 && acc > 0
        invariant
            j <= beyond,
            j <= 10,
            acc == capped(value(digits) * pow10(j as nat)),
        decreases 10 - j,
    {
        proof {
            let v = value(digits);
            assert(v * pow10((j + 1) as nat) == (v * pow10(j as nat)) * 10) by (nonlinear_arith)
                requires
                    pow10((j + 1) as nat) == 10 * pow10(j as nat),
            ;
        }
        acc = acc * 10;
        if acc > CAP {
            acc = CAP;
        }
        j = j + 1;
    }
    proof {
        let v = value(digits);
        let z = (point - count) as nat;
        if acc == 0 {
            lemma_pow10_grows(0, j as nat);
            assert(v == 0) by (nonlinear_arith)
                requires
                    v * pow10(j as nat) == 0,
                    pow10(j as nat) >= 1,
            ;
            assert(v * pow10(z) == 0) by (nonlinear_arith)
                requires
                    v == 0,
            ;
        } else if j < beyond {
            lemma_far_shift(v, 10);
            lemma_far_shift(v, z);
        }
    }
    acc
}

/// The number that a literal denotes, cut off at the point and brought into
/// the range of 32 bits with a sign.
fn truncate_characters(cs: &Vec<char>) -> (r: i32)
    ensures
        r == truncation(cs@),
{
    match shape(cs) {
        Some(Shape::Finite(l)) => {
            let m = whole_part(cs, &l);
            if l.negative {
                if m >= CAP {
                    i32::MIN
                } else {
                    -(m as i32)
                }
            } else {
                if m >= CAP {
                    i32::MAX
                } else {
                    m as i32
                }
            }
        },
        Some(Shape::Infinite { negative }) => if negative {
            i32::MIN
        } else {
            i32::MAX
        },
        _ => 0,
    }
}

fn digit_text(d: u32) -> (r: &'static str)
    requires
        d < 10,
    ensures
        r@ == seq![digit_char(d as nat)],
{
    proof {
        reveal_strlit("0");
        reveal_strlit("1");
        reveal_strlit("2");
        reveal_strlit("3");
        reveal_strlit("4");
        reveal_strlit("5");
        reveal_strlit("6");
        reveal_strlit("7");
        reveal_strlit("8");
        reveal_strlit("9");
    }
    let r = if d == 0 {
        "0"
    } else if d == 1 {
        "1"
    } else if d == 2 {
        "2"
    } else if d == 3 {
        "3"
    } else if d == 4 {
        "4"
    } else if d == 5 {
        "5"
    } else if d == 6 {
        "6"
    } else if d == 7 {
        "7"
    } else if d == 8 {
        "8"
    } else {
        "9"
    };
    assert(r@ =~= seq![digit_char(d as nat)]);
    r
}

fn natural_string(n: u32) -> (r: String)
    ensures
        r@ == natural_text(n as nat),
    decreases n,
{
    if n < 10 {
        String::from_str(digit_text(n))
    } else {
        let front = natural_string(n / 10);
        let r = front.concat(digit_text(n % 10));
        assert(r@ =~= natural_text((n / 10) as nat).push(digit_char((n % 10) as nat)));
        r
    }
}

/// The decimal literal of an integer.
pub fn integer_string(v: i32) -> (r: String)
    ensures
        r@ == integer_text(v as int),
{
    if v < 0 {
        let n: u32 = (-(v as i64)) as u32;
        proof {
            reveal_strlit("-");
            assert("-"@ =~= seq!['-']);
        }
        String::from_str("-").concat(natural_string(n).as_str())
    } else {
        natural_string(v as u32)
    }
}

/// A real number, held as the literal that denotes it.
#[derive(Debug)]
pub struct Real {
    literal: String,
}

impl View for Real {
    type V = Seq<char>;

    closed spec fn view(&self) -> Seq<char> {
        self.literal@
    }
}

impl Real {
    #[verifier::type_invariant]
    spec fn denotes(&self) -> bool {
        is_real(self.literal@)
    }

    /// The number that `s` denotes; `None` where `s` is no literal.
    pub fn parse(s: &str) -> (r: Option<Real>)
        ensures
            r is Some <==> is_real(s@),
            r matches Some(x) ==> x@ == s@,
    {
        let cs = characters(s);
        match shape(&cs) {
            Some(_) => Some(Real { literal: String::from_str(s) }),
            None => None,
        }
    }

    /// The integer `v` as a real number.
    pub fn from_integer(v: i32) -> (r: Real)
        ensures
            r@ == integer_text(v as int),
    {
        proof {
            lemma_integer_text(v as int);
        }
        Real { literal: integer_string(v) }
    }

    /// The literal that denotes the number.
    pub fn literal(&self) -> (r: &str)
        ensures
            r@ == self@,
            is_real(r@),
    {
        proof {
            use_type_invariant(self);
        }
        self.literal.as_str()
    }

    /// The number cut off at the point and brought into the range of 32 bits
    /// with a sign.
    pub fn truncate(&self) -> (r: i32)
        ensures
            r == truncation(self@),
    {
        let cs = characters(self.literal.as_str());
        truncate_characters(&cs)
    }
}

impl Clone for Real {
    /// The same number.
    fn clone(&self) -> (r: Real)
        ensures
            r@ == self@,
    {
        proof {
            use_type_invariant(self);
        }
        Real { literal: self.literal.clone() }
    }
}

} // verus!
