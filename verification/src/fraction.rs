//! Numbers from zero to one, as confidences are.

use vstd::prelude::*;

use crate::number::NumberV;
use crate::table::Dup;
use crate::{number, text};

verus! {

/// A number from zero to one: one itself, or the digits behind the point.
pub struct FractionV {
    pub one: bool,
    pub digits: Seq<u8>,
}

/// Digits behind the point, without the zeros that they end with.
pub open spec fn significant(s: Seq<u8>) -> Seq<u8>
    decreases s.len(),
{
    if s.len() > 0 && s.last() == 0 {
        significant(s.drop_last())
    } else {
        s
    }
}

/// The values of digits.
pub open spec fn digit_values(s: Seq<char>) -> Seq<u8> {
    s.map_values(|c: char| number::digit_value(c) as u8)
}

/// How many zeros `s` starts with.
pub open spec fn zeros(s: Seq<u8>) -> nat
    decreases s.len(),
{
    if s.len() > 0 && s[0] == 0 {
        1 + zeros(s.skip(1))
    } else {
        0
    }
}

/// `n` zeros.
pub open spec fn run_of_zeros(n: nat) -> Seq<u8> {
    Seq::new(n, |i: int| 0u8)
}

/// The number of places behind the point from which on a first digit other than
/// zero counts as nothing.
pub const PLACES: i128 = 400;

/// `n`, or the end of the range from zero to one that it lies beyond. A number
/// whose first digit other than zero stands [`PLACES`] or more zeros behind the
/// point counts as zero.
pub open spec fn clamped(n: NumberV) -> FractionV {
    let d = digit_values(n.whole + n.part);
    let z = zeros(d);
    let p = n.whole.len() + n.exponent - z;
    if n.negative || z == d.len() || p <= -PLACES {
        FractionV { one: false, digits: seq![] }
    } else if p >= 1 {
        FractionV { one: true, digits: seq![] }
    } else {
        FractionV { one: false, digits: significant(run_of_zeros((-p) as nat) + d.skip(z as int)) }
    }
}

/// Digits behind a point that denote a smaller number than others.
pub open spec fn digits_less(a: Seq<u8>, b: Seq<u8>) -> bool
    decreases a.len(),
{
    if b.len() == 0 {
        false
    } else if a.len() == 0 {
        true
    } else if a[0] != b[0] {
        a[0] < b[0]
    } else {
        digits_less(a.skip(1), b.skip(1))
    }
}

/// Of two runs of digits that first differ in one digit, the one with the lesser digit there
/// denotes less, whatever follows; and a run denotes less than a longer one that it starts.
pub proof fn law_the_first_difference_decides(
    p: Seq<u8>,
    a: u8,
    x: Seq<u8>,
    b: u8,
    y: Seq<u8>,
)
    requires
        a != b,
    ensures
        digits_less(p.push(a) + x, p.push(b) + y) <==> a < b,
        digits_less(p, p.push(a) + x),
        !digits_less(p.push(a) + x, p),
    decreases p.len(),
{
    let s = p.push(a) + x;
    let t = p.push(b) + y;
    if p.len() > 0 {
        let q = p.skip(1);
        assert(s.skip(1) =~= q.push(a) + x);
        assert(t.skip(1) =~= q.push(b) + y);
        assert(s[0] == p[0] && t[0] == p[0]);
        law_the_first_difference_decides(q, a, x, b, y);
    } else {
        assert(s[0] == a && t[0] == b);
    }
}

/// `a` is less than `b`.
pub open spec fn less(a: FractionV, b: FractionV) -> bool {
    !a.one && (b.one || digits_less(a.digits, b.digits))
}

/// The greater of two numbers is one of them, and neither is greater than it.
pub proof fn law_the_greater_is_no_less(a: FractionV, b: FractionV)
    ensures
        greater(a, b) == a || greater(a, b) == b,
        !less(greater(a, b), a),
        !less(greater(a, b), b),
{
    lemma_digits_not_both(a.digits, b.digits);
    lemma_digits_not_both(b.digits, b.digits);
    lemma_digits_not_both(a.digits, a.digits);
}

proof fn lemma_digits_not_both(a: Seq<u8>, b: Seq<u8>)
    ensures
        !(digits_less(a, b) && digits_less(b, a)),
    decreases a.len(),
{
    if a.len() > 0 && b.len() > 0 {
        lemma_digits_not_both(a.skip(1), b.skip(1));
    }
}

/// The greater of two numbers.
pub open spec fn greater(a: FractionV, b: FractionV) -> FractionV {
    if less(a, b) {
        b
    } else {
        a
    }
}

/// A number below one is kept: of zeros before the point and digits behind it these digits
/// stay, but for the zeros that they end with. A negative number counts as zero, and a
/// number with another digit before the point as one.
pub proof fn law_numbers_are_brought_into_range(n: NumberV, k: int)
    requires
        n.exponent == 0,
        n.part.len() < 400,
        forall|i: int| 0 <= i < n.whole.len() ==> number::is_digit(#[trigger] n.whole[i]),
        forall|i: int| 0 <= i < n.part.len() ==> number::is_digit(#[trigger] n.part[i]),
    ensures
        n.negative ==> clamped(n) == (FractionV { one: false, digits: seq![] }),
        !n.negative && 0 <= k < n.whole.len() && n.whole[k] != '0' ==> clamped(n) == (FractionV {
            one: true,
            digits: seq![],
        }),
        !n.negative && (forall|i: int| 0 <= i < n.whole.len() ==> #[trigger] n.whole[i] == '0')
            ==> !clamped(n).one && clamped(n).digits == significant(digit_values(n.part)),
{
    let d = digit_values(n.whole + n.part);
    let w = n.whole.len() as int;
    let z = zeros(d) as int;
    lemma_zeros_are_zeros(d);
    if !n.negative && 0 <= k < w && n.whole[k] != '0' {
        assert((n.whole + n.part)[k] == n.whole[k]);
        assert(d[k] == number::digit_value(n.whole[k]) as u8);
        assert(z <= k);
    }
    if !n.negative && (forall|i: int| 0 <= i < n.whole.len() ==> #[trigger] n.whole[i] == '0') {
        assert forall|i: int| 0 <= i < w implies #[trigger] d[i] == 0 by {
            assert((n.whole + n.part)[i] == n.whole[i]);
        }
        assert(z >= w);
        let v = digit_values(n.part);
        assert(v =~= d.skip(w)) by {
            assert forall|i: int| 0 <= i < v.len() implies v[i] == d.skip(w)[i] by {
                assert((n.whole + n.part)[w + i] == n.part[i]);
            }
        }
        if z == d.len() {
            assert forall|i: int| 0 <= i < v.len() implies #[trigger] v[i] == 0 by {
                assert(d[w + i] == 0);
            }
            lemma_significant(v, 0);
            assert(v.take(0) =~= seq![]);
            assert(significant(seq![]) =~= seq![]);
        } else {
            let r = run_of_zeros((z - w) as nat) + d.skip(z);
            assert(r =~= v) by {
                assert forall|i: int| 0 <= i < v.len() implies r[i] == v[i] by {
                    assert(v[i] == d[w + i]);
                    if i >= z - w {
                        assert(r[i] == d.skip(z)[i - (z - w)]);
                    }
                }
            }
        }
    }
}

/// The zeros that digits start with are zeros, and what follows them is another digit.
proof fn lemma_zeros_are_zeros(s: Seq<u8>)
    ensures
        zeros(s) <= s.len(),
        forall|i: int| 0 <= i < zeros(s) ==> #[trigger] s[i] == 0,
        zeros(s) < s.len() ==> s[zeros(s) as int] != 0,
    decreases s.len(),
{
    if s.len() > 0 && s[0] == 0 {
        let t = s.skip(1);
        lemma_zeros_are_zeros(t);
        assert forall|i: int| 0 <= i < zeros(s) implies #[trigger] s[i] == 0 by {
            if i > 0 {
                assert(t[i - 1] == s[i]);
            }
        }
        if zeros(s) < s.len() {
            assert(t[zeros(t) as int] == s[zeros(s) as int]);
        }
    }
}

/// The decimal text of a fraction.
pub open spec fn fraction_text(f: FractionV) -> Seq<char> {
    if f.one {
        seq!['1', '.', '0']
    } else if f.digits.len() == 0 {
        seq!['0', '.', '0']
    } else {
        seq!['0', '.'] + f.digits.map_values(|d: u8| text::digit_char(d as nat))
    }
}

/// A number from zero to one.
#[derive(Debug, PartialEq)]
pub struct Fraction {
    one: bool,
    digits: Vec<u8>,
}

impl View for Fraction {
    type V = FractionV;

    closed spec fn view(&self) -> FractionV {
        FractionV { one: self.one, digits: self.digits@ }
    }
}

impl Dup for Fraction {
    fn dup(&self) -> (r: Fraction) {
        let mut digits: Vec<u8> = Vec::new();
        let mut i: usize = 0;
        while i < self.digits.len()
            invariant
                i <= self.digits@.len(),
                digits@ == self.digits@.take(i as int),
            decreases self.digits.len() - i,
        {
            digits.push(self.digits[i]);
            i += 1;
        }
        proof {
            use_type_invariant(self);
        }
        assert(digits@ =~= self.digits@);
        Fraction { one: self.one, digits }
    }
}

/// Digits, none above nine, the last of them no zero.
pub open spec fn well_written(f: FractionV) -> bool {
    &&& f.one ==> f.digits.len() == 0
    &&& f.digits.len() > 0 ==> f.digits.last() != 0
    &&& forall|i: int| 0 <= i < f.digits.len() ==> #[trigger] f.digits[i] <= 9
}

/// Of two different numbers one is less than the other.
pub proof fn law_numbers_are_ordered(a: FractionV, b: FractionV)
    requires
        well_written(a),
        well_written(b),
    ensures
        a == b || less(a, b) || less(b, a),
        !(less(a, b) && less(b, a)),
{
    lemma_digits_less_total(a.digits, b.digits);
}

/// Of two different runs of digits one denotes less than the other.
proof fn lemma_digits_less_total(a: Seq<u8>, b: Seq<u8>)
    ensures
        a == b || digits_less(a, b) || digits_less(b, a),
        !(digits_less(a, b) && digits_less(b, a)),
    decreases a.len(),
{
    if a.len() > 0 && b.len() > 0 {
        lemma_digits_less_total(a.skip(1), b.skip(1));
        if a[0] == b[0] && a.skip(1) == b.skip(1) {
            assert(a =~= seq![a[0]] + a.skip(1));
            assert(b =~= seq![b[0]] + b.skip(1));
        }
    } else if a.len() == 0 && b.len() == 0 {
        assert(a =~= b);
    }
}

/// Leaving off zeros at the end leaves off nothing else.
proof fn lemma_significant(s: Seq<u8>, k: int)
    requires
        0 <= k <= s.len(),
        forall|i: int| k <= i < s.len() ==> #[trigger] s[i] == 0,
    ensures
        significant(s) == significant(s.take(k)),
    decreases s.len() - k,
{
    if k < s.len() {
        assert(s.last() == 0);
        let t = s.drop_last();
        assert forall|i: int| k <= i < t.len() implies #[trigger] t[i] == 0 by {
            assert(t[i] == s[i]);
        }
        lemma_significant(t, k);
        assert(t.take(k) =~= s.take(k));
    } else {
        assert(s.take(k) =~= s);
    }
}

/// Zeros at the start, counted up to the first other digit.
proof fn lemma_zeros(s: Seq<u8>, k: int)
    requires
        0 <= k <= s.len(),
        forall|i: int| 0 <= i < k ==> #[trigger] s[i] == 0,
        k < s.len() ==> s[k] != 0,
    ensures
        zeros(s) == k,
    decreases s.len(),
{
    if k > 0 {
        let t = s.skip(1);
        assert forall|i: int| 0 <= i < k - 1 implies #[trigger] t[i] == 0 by {
            assert(t[i] == s[i + 1]);
        }
        if k < s.len() {
            assert(t[k - 1] == s[k]);
        }
        lemma_zeros(t, k - 1);
    }
}

impl Fraction {
    #[verifier::type_invariant]
    spec fn wf(self) -> bool {
        well_written(self@)
    }

    /// Zero.
    pub fn zero() -> (r: Fraction)
        ensures
            r@ == (FractionV { one: false, digits: seq![] }),
    {
        let r = Fraction { one: false, digits: Vec::new() };
        assert(r@.digits =~= seq![]);
        r
    }

    /// One.
    pub fn one() -> (r: Fraction)
        ensures
            r@ == (FractionV { one: true, digits: seq![] }),
    {
        let r = Fraction { one: true, digits: Vec::new() };
        assert(r@.digits =~= seq![]);
        r
    }

    /// Eight tenths, the confidence of a relationship that states none.
    pub fn eight_tenths() -> (r: Fraction)
        ensures
            r@ == eight_tenths(),
    {
        let mut digits: Vec<u8> = Vec::new();
        digits.push(8);
        let r = Fraction { one: false, digits };
        assert(r@.digits =~= seq![8u8]);
        r
    }

    /// The number that `v` denotes, or the end of the range from zero to one that
    /// it lies beyond; nothing where `v` is no number.
    pub fn clamp(v: &Vec<char>) -> (r: Option<Fraction>)
        ensures
            match r {
                Some(f) => number::number_in(v@) is Some && f@ == clamped(
                    number::number_in(v@)->0,
                ),
                None => number::number_in(v@) is None,
            },
    {
        match number::parse_number(v) {
            Some(p) => Some(Fraction::clamp_parts(v, p, Ghost(number::number_in(v@)->0))),
            None => None,
        }
    }

    /// The number `n`, whose parts stand in `v`, or the end of the range from zero to one
    /// that it lies beyond.
    fn clamp_parts(v: &Vec<char>, p: number::NumberParts, Ghost(n): Ghost<NumberV>) -> (r: Fraction)
        requires
            p.negative == n.negative,
            p.whole_from <= p.whole_to <= v@.len(),
            p.part_from <= p.part_to <= v@.len(),
            v@.subrange(p.whole_from as int, p.whole_to as int) == n.whole,
            v@.subrange(p.part_from as int, p.part_to as int) == n.part,
            p.exponent == number::limited(n.exponent),
            forall|i: int|
                p.whole_from <= i < p.whole_to || p.part_from <= i < p.part_to
                    ==> number::is_digit(#[trigger] v@[i]),
        ensures
            r@ == clamped(n),
    {
        let ghost all = digit_values(n.whole + n.part);
        let mut d: Vec<u8> = Vec::new();
        let mut i: usize = p.whole_from;
        while i < p.whole_to
            invariant
                p.whole_from <= i <= p.whole_to <= v@.len(),
                n.whole == v@.subrange(p.whole_from as int, p.whole_to as int),
                all == digit_values(n.whole + n.part),
                d@ == all.take(i - p.whole_from),
                forall|i: int|
                    p.whole_from <= i < p.whole_to ==> number::is_digit(#[trigger] v@[i]),
            decreases p.whole_to - i,
        {
            assert(number::is_digit(v@[i as int]));
            assert((n.whole + n.part)[i - p.whole_from] == v@[i as int]);
            d.push(((v[i] as u32) - 48) as u8);
            assert(d@ =~= all.take(i + 1 - p.whole_from));
            i += 1;
        }
        let mut k: usize = p.part_from;
        while k < p.part_to
            invariant
                p.part_from <= k <= p.part_to <= v@.len(),
                n.part == v@.subrange(p.part_from as int, p.part_to as int),
                all == digit_values(n.whole + n.part),
                d@ == all.take(n.whole.len() + k - p.part_from),
                forall|i: int|
                    p.part_from <= i < p.part_to ==> number::is_digit(#[trigger] v@[i]),
            decreases p.part_to - k,
        {
            assert(number::is_digit(v@[k as int]));
            assert((n.whole + n.part)[n.whole.len() + k - p.part_from] == v@[k as int]);
            d.push(((v[k] as u32) - 48) as u8);
            assert(d@ =~= all.take(n.whole.len() + k + 1 - p.part_from));
            k += 1;
        }
        assert(d@ =~= all);
        assert forall|i: int| 0 <= i < d@.len() implies #[trigger] d@[i] <= 9 by {
            let c = (n.whole + n.part)[i];
            if i < n.whole.len() {
                assert(c == v@[p.whole_from + i]);
            } else {
                assert(c == v@[p.part_from + i - n.whole.len()]);
            }
            assert(number::is_digit(c));
        }
        let len: usize = d.len();
        let mut z: usize = 0;
        while z < len && d[z] == 0
            invariant
                0 <= z <= len == d@.len(),
                forall|i: int| 0 <= i < z ==> #[trigger] d@[i] == 0,
            decreases len - z,
        {
            z += 1;
        }
        proof {
            lemma_zeros(d@, z as int);
        }
        if p.negative || z == len {
            return Fraction::zero();
        }
        let places: i128 = (p.whole_to - p.whole_from) as i128 + p.exponent - z as i128;
        if places <= -PLACES {
            return Fraction::zero();
        }
        if places >= 1 {
            return Fraction::one();
        }
        let ghost full = run_of_zeros((-places) as nat) + d@.skip(z as int);
        let lead: usize = (-places) as usize;
        let mut end: usize = len;
        while end > z && d[end - 1] == 0
            invariant
                z < len == d@.len(),
                d@[z as int] != 0,
                z < end <= len,
                forall|i: int| end <= i < len ==> #[trigger] d@[i] == 0,
            decreases end,
        {
            end -= 1;
        }
        let mut digits: Vec<u8> = Vec::new();
        let mut j: usize = 0;
        while j < lead
            invariant
                j <= lead,
                digits@ == run_of_zeros(j as nat),
            decreases lead - j,
        {
            digits.push(0);
            assert(digits@ =~= run_of_zeros((j + 1) as nat));
            j += 1;
        }
        let mut m: usize = z;
        while m < end
            invariant
                z <= m <= end <= d@.len(),
                digits@ == run_of_zeros(lead as nat) + d@.subrange(z as int, m as int),
            decreases end - m,
        {
            digits.push(d[m]);
            assert(digits@ =~= run_of_zeros(lead as nat) + d@.subrange(z as int, m + 1));
            m += 1;
        }
        proof {
            let cut = lead + end - z;
            assert forall|i: int| cut <= i < full.len() implies #[trigger] full[i] == 0 by {
                assert(full[i] == d@[z + i - lead]);
            }
            lemma_significant(full, cut);
            assert(full.take(cut) =~= digits@);
            assert(digits@.last() == d@[end - 1]);
            assert(significant(digits@) == digits@);
        }
        Fraction { one: false, digits }
    }

    /// Whether this is less than `other`.
    pub fn is_less(&self, other: &Fraction) -> (r: bool)
        ensures
            r == less(self@, other@),
    {
        if self.one {
            return false;
        }
        if other.one {
            return true;
        }
        let a = &self.digits;
        let b = &other.digits;
        let mut i: usize = 0;
        assert(a@.skip(0) =~= a@);
        assert(b@.skip(0) =~= b@);
        while i < a.len() && i < b.len()
            invariant
                !self.one,
                !other.one,
                a == self.digits,
                b == other.digits,
                i <= a@.len(),
                i <= b@.len(),
                digits_less(a@, b@) == digits_less(a@.skip(i as int), b@.skip(i as int)),
            decreases a.len() - i,
        {
            if a[i] != b[i] {
                return a[i] < b[i];
            }
            assert(a@.skip(i as int).skip(1) =~= a@.skip(i + 1));
            assert(b@.skip(i as int).skip(1) =~= b@.skip(i + 1));
            i += 1;
        }
        i < b.len()
    }

    /// The decimal text of the number.
    pub fn to_text(&self) -> (r: String)
        ensures
            r@ == fraction_text(self@),
    {
        proof {
            use_type_invariant(self);
        }
        let mut s = String::new();
        if self.one {
            s.push('1');
            s.push('.');
            s.push('0');
            assert(s@ =~= seq!['1', '.', '0']);
            return s;
        }
        s.push('0');
        s.push('.');
        if self.digits.len() == 0 {
            s.push('0');
            assert(s@ =~= seq!['0', '.', '0']);
            return s;
        }
        let ghost tail = self.digits@.map_values(|d: u8| text::digit_char(d as nat));
        let mut i: usize = 0;
        assert(s@ =~= seq!['0', '.'] + tail.take(0));
        while i < self.digits.len()
            invariant
                i <= self.digits@.len(),
                tail == self.digits@.map_values(|d: u8| text::digit_char(d as nat)),
                forall|i: int| 0 <= i < self.digits@.len() ==> #[trigger] self.digits@[i] <= 9,
                s@ == seq!['0', '.'] + tail.take(i as int),
            decreases self.digits.len() - i,
        {
            assert(self.digits@[i as int] <= 9);
            s.push((48u8 + self.digits[i]) as char);
            assert(s@ =~= seq!['0', '.'] + tail.take(i + 1));
            i += 1;
        }
        assert(tail.take(i as int) =~= tail);
        s
    }
}

/// Eight tenths.
pub open spec fn eight_tenths() -> FractionV {
    FractionV { one: false, digits: seq![8u8] }
}

} // verus!
