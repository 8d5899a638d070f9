//! Integer and decimal literals of the scene language.
use vstd::prelude::*;

verus! {

pub open spec fn is_digit(c: char) -> bool {
    '0' <= c && c <= '9'
}

pub open spec fn digit_value(c: char) -> nat {
    (c as int - '0' as int) as nat
}

pub open spec fn all_digits(s: Seq<char>) -> bool {
    forall|i: int| 0 <= i < s.len() ==> is_digit(#[trigger] s[i])
}

/// The number that the decimal digits `s` spell out.
pub open spec fn digits_value(s: Seq<char>) -> nat
    decreases s.len(),
{
    if s.len() == 0 {
        0
    } else {
        digits_value(s.drop_last()) * 10 + digit_value(s.last())
    }
}

pub open spec fn pow10(n: nat) -> nat
    decreases n,
{
    if n == 0 {
        1
    } else {
        10 * pow10((n - 1) as nat)
    }
}

/// An unsigned literal: an optional `+` and one or more digits.
pub open spec fn unsigned_literal(s: Seq<char>) -> Option<nat> {
    let body = if s.len() > 0 && s[0] == '+' {
        s.drop_first()
    } else {
        s
    };
    if body.len() > 0 && all_digits(body) {
        Some(digits_value(body))
    } else {
        None
    }
}

/// A signed literal: an optional `+` or `-` and one or more digits.
pub open spec fn signed_literal(s: Seq<char>) -> Option<int> {
    let negative = s.len() > 0 && s[0] == '-';
    let body = if s.len() > 0 && (s[0] == '+' || s[0] == '-') {
        s.drop_first()
    } else {
        s
    };
    if body.len() > 0 && all_digits(body) {
        Some(
            if negative {
                -digits_value(body)
            } else {
                digits_value(body) as int
            },
        )
    } else {
        None
    }
}

proof fn lemma_prefix_value_le(s: Seq<char>, j: int, k: int)
    requires
        all_digits(s),
        0 <= j <= k <= s.len(),
    ensures
        digits_value(s.take(j)) <= digits_value(s.take(k)),
    decreases k - j,
{
    if j < k {
        lemma_prefix_value_le(s, j, k - 1);
        assert(s.take(k).drop_last() =~= s.take(k - 1));
    }
}

/// The value of the digits `s[from..to]`, if it is at most `bound`.
fn bounded_digits_value(s: &Vec<char>, from: usize, bound: u64) -> (r: Option<u64>)
    requires
        from <= s@.len(),
        all_digits(s@.skip(from as int)),
    ensures
        match r {
            Some(v) => v == digits_value(s@.skip(from as int)) && v <= bound,
            None => digits_value(s@.skip(from as int)) > bound,
        },
{
    let ghost body = s@.skip(from as int);
    let mut acc: u64 = 0;
    let mut i: usize = from;
    assert(body.take(0) =~= Seq::<char>::empty());
    while i < s.len()
        invariant
            from <= i <= s@.len(),
            body == s@.skip(from as int),
            all_digits(body),
            acc == digits_value(body.take(i - from)),
            acc <= bound,
        decreases s@.len() - i,
    {
        let c = s[i];
        assert(body[i - from] == c);
        let d: u64 = (c as u32 - '0' as u32) as u64;
        let ghost k = (i - from + 1) as int;
        assert(body.take(k).drop_last() =~= body.take(k - 1));
        assert(body.take(k).last() == c);
        if d > bound || acc > (bound - d) / 10 {
            assert(digits_value(body.take(k)) > bound) by (nonlinear_arith)
                requires
                    digits_value(body.take(k)) == acc * 10 + d,
                    d > bound || acc > (bound - d) / 10,
                    acc <= bound,
            ;
            proof {
                lemma_prefix_value_le(body, k, body.len() as int);
                assert(body.take(body.len() as int) =~= body);
            }
            return None;
        }
        assert(acc * 10 + d <= bound) by (nonlinear_arith)
            requires
                d <= bound,
                acc <= (bound - d) / 10,
        ;
        acc = acc * 10 + d;
        i = i + 1;
    }
    assert(body.take(body.len() as int) =~= body);
    Some(acc)
}

/// Whether every character of `s` from `from` on is a digit.
fn digits_from(s: &Vec<char>, from: usize) -> (r: bool)
    requires
        from <= s@.len(),
    ensures
        r == all_digits(s@.skip(from as int)),
{
    let mut i: usize = from;
    while i < s.len()
        invariant
            from <= i <= s@.len(),
            forall|j: int| from <= j < i ==> is_digit(#[trigger] s@[j]),
        decreases s@.len() - i,
    {
        if !(s[i] >= '0' && s[i] <= '9') {
            assert(!is_digit(s@.skip(from as int)[i - from]));
            return false;
        }
        i = i + 1;
    }
    assert forall|j: int| 0 <= j < s@.skip(from as int).len() implies is_digit(
        #[trigger] s@.skip(from as int)[j],
    ) by {
        assert(s@.skip(from as int)[j] == s@[from + j]);
    }
    true
}

/// Reads an unsigned literal whose value is at most `bound`.
pub fn parse_unsigned(s: &Vec<char>, bound: u64) -> (r: Option<u64>)
    ensures
        match unsigned_literal(s@) {
            Some(v) => if v <= bound {
                r == Some(v as u64)
            } else {
                r is None
            },
            None => r is None,
        },
{
    let from: usize = if s.len() > 0 && s[0] == '+' {
        1
    } else {
        0
    };
    assert(s@.skip(from as int) =~= (if s@.len() > 0 && s@[0] == '+' {
        s@.drop_first()
    } else {
        s@
    }));
    if from >= s.len() || !digits_from(s, from) {
        return None;
    }
    bounded_digits_value(s, from, bound)
}

/// Reads a signed literal whose value lies in `[-low, high]`.
pub fn parse_signed(s: &Vec<char>, low: u64, high: u64) -> (r: Option<i128>)
    ensures
        match signed_literal(s@) {
            Some(v) => if -(low as int) <= v <= high {
                r == Some(v as i128)
            } else {
                r is None
            },
            None => r is None,
        },
{
    let negative = s.len() > 0 && s[0] == '-';
    let from: usize = if s.len() > 0 && (s[0] == '+' || s[0] == '-') {
        1
    } else {
        0
    };
    assert(s@.skip(from as int) =~= (if s@.len() > 0 && (s@[0] == '+' || s@[0] == '-') {
        s@.drop_first()
    } else {
        s@
    }));
    if from >= s.len() || !digits_from(s, from) {
        return None;
    }
    let bound = if negative {
        low
    } else {
        high
    };
    match bounded_digits_value(s, from, bound) {
        Some(v) => if negative {
            Some(-(v as i128))
        } else {
            Some(v as i128)
        },
        None => None,
    }
}

/// A finite decimal number: `magnitude / 10^scale`, negated when `negative`.
/// The sign is kept on zero too, as a literal `-0` has it.
#[derive(Clone, Copy, Debug, PartialEq, Eq, Structural)]
pub struct Decimal {
    pub negative: bool,
    pub magnitude: u64,
    pub scale: u32,
}

/// Position of the first `.` in `s`.
pub open spec fn find_dot(s: Seq<char>) -> Option<nat>
    decreases s.len(),
{
    if s.len() == 0 {
        None
    } else if s[0] == '.' {
        Some(0)
    } else {
        match find_dot(s.drop_first()) {
            Some(k) => Some(k + 1),
            None => None,
        }
    }
}

/// A decimal literal: an optional sign, then digits with at most one `.`
/// among them, and at least one digit.  The digits, read without the `.`,
/// give the magnitude; those after the `.` give the scale.
pub open spec fn decimal_literal(s: Seq<char>) -> Option<Decimal> {
    let negative = s.len() > 0 && s[0] == '-';
    let body = if s.len() > 0 && (s[0] == '+' || s[0] == '-') {
        s.drop_first()
    } else {
        s
    };
    let (int_part, frac_part) = match find_dot(body) {
        Some(p) => (body.take(p as int), body.skip(p + 1 as int)),
        None => (body, Seq::<char>::empty()),
    };
    let digits = int_part + frac_part;
    if digits.len() > 0 && all_digits(digits) && digits_value(digits) <= u64::MAX
        && frac_part.len() <= u32::MAX {
        Some(
            Decimal {
                negative,
                magnitude: digits_value(digits) as u64,
                scale: frac_part.len() as u32,
            },
        )
    } else {
        None
    }
}

proof fn lemma_find_dot(b: Seq<char>, p: int)
    requires
        0 <= p <= b.len(),
        forall|j: int| 0 <= j < p ==> b[j] != '.',
        p < b.len() ==> b[p] == '.',
    ensures
        find_dot(b) == if p < b.len() {
            Some(p as nat)
        } else {
            None::<nat>
        },
    decreases p,
{
    if p > 0 {
        lemma_find_dot(b.drop_first(), p - 1);
    }
}

/// The literal `s` without its sign, split at its first `.`: the digits
/// before and after it.
pub open spec fn decimal_parts(s: Seq<char>, from: int, p: int) -> (Seq<char>, Seq<char>) {
    if p < s.len() {
        (s.subrange(from, p), s.skip(p + 1))
    } else {
        (s.subrange(from, p), Seq::<char>::empty())
    }
}

proof fn lemma_decimal_literal(s: Seq<char>, from: int, p: int)
    requires
        from == (if s.len() > 0 && (s[0] == '+' || s[0] == '-') {
            1int
        } else {
            0int
        }),
        from <= p <= s.len(),
        forall|j: int| from <= j < p ==> s[j] != '.',
        p < s.len() ==> s[p] == '.',
    ensures
        ({
            let (a, b) = decimal_parts(s, from, p);
            let digits = a + b;
            decimal_literal(s) == if digits.len() > 0 && all_digits(digits) && digits_value(digits)
                <= u64::MAX && b.len() <= u32::MAX {
                Some(
                    Decimal {
                        negative: s.len() > 0 && s[0] == '-',
                        magnitude: digits_value(digits) as u64,
                        scale: b.len() as u32,
                    },
                )
            } else {
                None
            }
        }),
{
    let body = s.skip(from);
    assert(body =~= (if s.len() > 0 && (s[0] == '+' || s[0] == '-') {
        s.drop_first()
    } else {
        s
    }));
    lemma_find_dot(body, p - from);
    if p < s.len() {
        assert(body.take(p - from) =~= s.subrange(from, p));
        assert(body.skip(p - from + 1) =~= s.skip(p + 1));
    } else {
        assert(body =~= s.subrange(from, p));
    }
}

/// Position of the first `.` from `from` on, or the length.
fn dot_position(s: &Vec<char>, from: usize) -> (p: usize)
    requires
        from <= s@.len(),
    ensures
        from <= p <= s@.len(),
        forall|j: int| from <= j < p ==> s@[j] != '.',
        p < s@.len() ==> s@[p as int] == '.',
{
    let mut p: usize = from;
    while p < s.len() && s[p] != '.'
        invariant
            from <= p <= s@.len(),
            forall|j: int| from <= j < p ==> s@[j] != '.',
        decreases s@.len() - p,
    {
        p = p + 1;
    }
    p
}

/// The characters of `s[from..p]` followed by those after `p`.
fn without_dot(s: &Vec<char>, from: usize, p: usize) -> (r: Vec<char>)
    requires
        from <= p <= s@.len(),
    ensures
        r@ == decimal_parts(s@, from as int, p as int).0 + decimal_parts(
            s@,
            from as int,
            p as int,
        ).1,
{
    let mut digits: Vec<char> = Vec::new();
    let mut i: usize = from;
    while i < p
        invariant
            from <= i <= p <= s@.len(),
            digits@ == s@.subrange(from as int, i as int),
        decreases p - i,
    {
        digits.push(s[i]);
        i = i + 1;
        assert(digits@ =~= s@.subrange(from as int, i as int));
    }
    if p < s.len() {
        let mut j: usize = p + 1;
        assert(digits@ =~= s@.subrange(from as int, p as int) + s@.subrange(p + 1, j as int));
        while j < s.len()
            invariant
                p < j <= s@.len(),
                digits@ == s@.subrange(from as int, p as int) + s@.subrange(p + 1, j as int),
            decreases s@.len() - j,
        {
            digits.push(s[j]);
            j = j + 1;
            assert(digits@ =~= s@.subrange(from as int, p as int) + s@.subrange(p + 1, j as int));
        }
        assert(s@.subrange(p + 1, j as int) =~= s@.skip(p + 1));
    } else {
        assert(digits@ =~= digits@ + Seq::<char>::empty());
    }
    digits
}

/// Reads a decimal literal.
pub fn parse_decimal(s: &Vec<char>) -> (r: Option<Decimal>)
    ensures
        r == decimal_literal(s@),
{
    let negative = s.len() > 0 && s[0] == '-';
    let from: usize = if s.len() > 0 && (s[0] == '+' || s[0] == '-') {
        1
    } else {
        0
    };
    let p = dot_position(s, from);
    proof {
        lemma_decimal_literal(s@, from as int, p as int);
    }
    let digits = without_dot(s, from, p);
    let frac_len: usize = if p < s.len() {
        s.len() - p - 1
    } else {
        0
    };
    assert(digits@.skip(0) =~= digits@);
    if digits.len() == 0 || frac_len > u32::MAX as usize || !digits_from(&digits, 0) {
        return None;
    }
    match bounded_digits_value(&digits, 0, u64::MAX) {
        Some(v) => Some(Decimal { negative, magnitude: v, scale: frac_len as u32 }),
        None => None,
    }
}

impl Decimal {
    /// Whether the value is zero (of either sign).
    pub fn is_zero(&self) -> (r: bool)
        ensures
            r == (self.magnitude == 0),
    {
        self.magnitude == 0
    }

    /// Whether the value is exactly one.
    pub open spec fn is_one_spec(&self) -> bool {
        !self.negative && self.magnitude == pow10(self.scale as nat)
    }

    /// Whether the value is exactly one.
    pub fn is_one(&self) -> (r: bool)
        ensures
            r == self.is_one_spec(),
    {
        if self.negative {
            return false;
        }
        if self.scale >= 20 {
            proof {
                lemma_pow10_ge(20, self.scale as nat);
                lemma_pow10_20();
            }
            return false;
        }
        let mut p: u64 = 1;
        let mut k: u32 = 0;
        while k < self.scale
            invariant
                k <= self.scale <= 19,
                p == pow10(k as nat),
            decreases self.scale - k,
        {
            proof {
                lemma_pow10_ge(k as nat, 18);
                lemma_pow10_20();
            }
            p = p * 10;
            k = k + 1;
        }
        self.magnitude == p
    }

    /// The same magnitude with the opposite sign.
    pub fn negated(&self) -> (r: Decimal)
        ensures
            r == (Decimal { negative: !self.negative, ..*self }),
    {
        Decimal { negative: !self.negative, magnitude: self.magnitude, scale: self.scale }
    }
}

proof fn lemma_pow10_20()
    ensures
        pow10(18) == 1000000000000000000,
        pow10(20) == 100000000000000000000,
{
    reveal_with_fuel(pow10, 21);
}

pub proof fn lemma_pow10_positive(n: nat)
    ensures
        pow10(n) >= 1,
    decreases n,
{
    if n > 0 {
        lemma_pow10_positive((n - 1) as nat);
    }
}

pub proof fn lemma_pow10_ge(a: nat, b: nat)
    requires
        a <= b,
    ensures
        pow10(a) <= pow10(b),
    decreases b - a,
{
    if a < b {
        lemma_pow10_ge(a, (b - 1) as nat);
    }
}

} // verus!
