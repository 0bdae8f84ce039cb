//! Numerals: integers and decimal numbers in text, and numbers from zero to one.

use vstd::prelude::*;

use crate::text;

verus! {

/// `c` is a decimal digit.
pub open spec fn is_digit(c: char) -> bool {
    '0' <= c <= '9'
}

/// The value of a digit.
pub open spec fn digit_value(c: char) -> nat {
    ((c as u32) - 48) as nat
}

/// Where the run of digits that starts at `from` in `s` ends.
pub open spec fn digits_end(s: Seq<char>, from: int) -> int
    decreases s.len() - from,
{
    if 0 <= from < s.len() && is_digit(s[from]) {
        digits_end(s, from + 1)
    } else {
        from
    }
}

/// The number that a run of digits denotes.
pub open spec fn natural(s: Seq<char>) -> nat
    decreases s.len(),
{
    if s.len() == 0 {
        0
    } else {
        natural(s.drop_last()) * 10 + digit_value(s.last())
    }
}

/// Whether `c` is a decimal digit.
pub fn is_digit_char(c: char) -> (r: bool)
    ensures
        r == is_digit(c),
{
    '0' <= c && c <= '9'
}

/// Where the run of digits that starts at `from` in `v` ends.
pub fn end_of_digits(v: &Vec<char>, from: usize) -> (r: usize)
    requires
        from <= v@.len(),
    ensures
        r == digits_end(v@, from as int),
        from <= r <= v@.len(),
        forall|i: int| from <= i < r ==> is_digit(#[trigger] v@[i]),
{
    let mut i: usize = from;
    while i < v.len() && is_digit_char(v[i])
        invariant
            from <= i <= v@.len(),
            digits_end(v@, from as int) == digits_end(v@, i as int),
            forall|j: int| from <= j < i ==> is_digit(#[trigger] v@[j]),
        decreases v.len() - i,
    {
        i += 1;
    }
    i
}

/// The start of a longer run of digits denotes no more than the whole run.
pub proof fn lemma_natural_monotone(s: Seq<char>, k: int)
    requires
        0 <= k <= s.len(),
    ensures
        natural(s.take(k)) <= natural(s),
    decreases s.len() - k,
{
    if k < s.len() {
        lemma_natural_monotone(s.drop_last(), k);
        assert(s.drop_last().take(k) =~= s.take(k));
    } else {
        assert(s.take(k) =~= s);
    }
}

/// The bound above which [`natural_up_to`] counts no further.
pub const CEILING: u128 = 1_000_000_000_000_000_000_000_000_000_000;

/// The number that the digits `from..to` of `v` denote, or [`CEILING`] where it
/// is greater.
pub fn natural_up_to(v: &Vec<char>, from: usize, to: usize) -> (r: u128)
    requires
        from <= to <= v@.len(),
        forall|i: int| from <= i < to ==> is_digit(#[trigger] v@[i]),
    ensures
        r == if natural(v@.subrange(from as int, to as int)) <= CEILING {
            natural(v@.subrange(from as int, to as int)) as int
        } else {
            CEILING as int
        },
{
    let ghost s = v@.subrange(from as int, to as int);
    let mut n: u128 = 0;
    let mut i: usize = from;
    assert(s.take(0) =~= Seq::empty());
    while i < to
        invariant
            from <= i <= to <= v@.len(),
            s == v@.subrange(from as int, to as int),
            forall|j: int| from <= j < to ==> is_digit(#[trigger] v@[j]),
            n == natural(s.take(i - from)),
            n <= CEILING,
        decreases to - i,
    {
        assert(s.take(i + 1 - from).drop_last() =~= s.take(i - from));
        assert(s.take(i + 1 - from).last() == v@[i as int]);
        assert(is_digit(v@[i as int]));
        n = n * 10 + ((v[i] as u32) - 48) as u128;
        i += 1;
        if n > CEILING {
            proof {
                lemma_natural_monotone(s, i - from);
            }
            return CEILING;
        }
    }
    assert(s.take(i - from) =~= s);
    n
}

/// The integer that `s` denotes: an optional sign and then digits only, where it
/// lies in the range of `i64`.
pub open spec fn integer_in(s: Seq<char>) -> Option<int> {
    let a: int = if s.len() > 0 && (s[0] == '+' || s[0] == '-') {
        1
    } else {
        0
    };
    let n: int = natural(s.subrange(a, s.len() as int)) as int;
    let m: int = if s.len() > 0 && s[0] == '-' {
        -n
    } else {
        n
    };
    if a < s.len() && digits_end(s, a) == s.len() && i64::MIN <= m <= i64::MAX {
        Some(m)
    } else {
        None
    }
}

/// The integer that `s` denotes, where it lies in the range of `i64`.
pub fn parse_integer(s: &str) -> (r: Option<i64>)
    ensures
        match r {
            Some(n) => integer_in(s@) == Some(n as int),
            None => integer_in(s@) is None,
        },
{
    let v = text::chars_of(s);
    let n: usize = v.len();
    let negative = n > 0 && v[0] == '-';
    let a: usize = if n > 0 && (v[0] == '+' || v[0] == '-') {
        1
    } else {
        0
    };
    if a >= n || end_of_digits(&v, a) != n {
        return None;
    }
    let m: u128 = natural_up_to(&v, a, n);
    if negative {
        if m > 9223372036854775808 {
            None
        } else {
            Some((-(m as i128)) as i64)
        }
    } else if m > 9223372036854775807 {
        None
    } else {
        Some(m as i64)
    }
}

/// The number that `s` denotes where it is digits only, however many.
pub open spec fn natural_in(s: Seq<char>) -> Option<nat> {
    if s.len() > 0 && digits_end(s, 0) == s.len() {
        Some(natural(s))
    } else {
        None
    }
}

/// `s` is digits only and does not start with a zero: no digits stand for zero.
pub open spec fn is_numeral(s: Seq<char>) -> bool {
    &&& forall|i: int| 0 <= i < s.len() ==> is_digit(#[trigger] s[i])
    &&& s.len() > 0 ==> s[0] != '0'
}

/// A numeral is what is written for the number that it denotes.
proof fn lemma_numeral_written(s: Seq<char>)
    requires
        is_numeral(s),
        s.len() > 0,
    ensures
        natural(s) > 0,
        text::decimal(natural(s)) == s,
    decreases s.len(),
{
    let p = s.drop_last();
    let d = digit_value(s.last());
    assert(is_digit(s[s.len() - 1]));
    assert(text::digit_char(d) == s.last());
    if p.len() > 0 {
        assert(is_numeral(p)) by {
            assert(p[0] == s[0]);
        }
        lemma_numeral_written(p);
        assert(natural(s) / 10 == natural(p) && natural(s) % 10 == d);
        assert(text::decimal(natural(s)) =~= s);
    } else {
        assert(natural(p) == 0);
        assert(text::decimal(natural(s)) =~= s);
    }
}

/// What is written for the number after the one that the numeral `s` denotes.
proof fn lemma_successor(s: Seq<char>)
    requires
        is_numeral(s),
    ensures
        text::decimal(natural(s) + 1) == if s.len() == 0 {
            seq!['1']
        } else if s.last() != '9' {
            s.drop_last().push(text::digit_char(digit_value(s.last()) + 1))
        } else {
            text::decimal(natural(s.drop_last()) + 1).push('0')
        },
{
    if s.len() == 0 {
        assert(text::decimal(1) =~= seq!['1']);
    } else {
        let p = s.drop_last();
        let d = digit_value(s.last());
        assert(is_digit(s[s.len() - 1]));
        let n = natural(p);
        if s.last() != '9' {
            assert(d < 9);
            if p.len() > 0 {
                assert(is_numeral(p)) by {
                    assert(p[0] == s[0]);
                }
                lemma_numeral_written(p);
                assert((n * 10 + d + 1) / 10 == n && (n * 10 + d + 1) % 10 == d + 1);
            } else {
                assert(n == 0);
                assert(text::decimal(d + 1) =~= p.push(text::digit_char(d + 1)));
            }
        } else {
            assert(d == 9);
            assert((n * 10 + 10) / 10 == (n + 1) as int && (n * 10 + 10) % 10 == 0);
            assert(text::digit_char(0) == '0');
        }
    }
}

/// A numeral with more digits denotes a greater number.
proof fn lemma_longer(a: Seq<char>, b: Seq<char>)
    requires
        is_numeral(b),
        forall|i: int| 0 <= i < a.len() ==> is_digit(#[trigger] a[i]),
        a.len() < b.len(),
    ensures
        natural(a) < natural(b),
    decreases a.len(),
{
    if a.len() == 0 {
        lemma_numeral_written(b);
    } else {
        let p = b.drop_last();
        assert(is_numeral(p)) by {
            assert(p[0] == b[0]);
        }
        lemma_longer(a.drop_last(), p);
        assert(is_digit(a[a.len() - 1]));
    }
}

/// Zeros at the start of digits make no difference.
proof fn lemma_leading_zeros(s: Seq<char>, k: int)
    requires
        0 <= k <= s.len(),
        forall|i: int| 0 <= i < k ==> #[trigger] s[i] == '0',
    ensures
        natural(s.skip(k)) == natural(s),
    decreases s.len(),
{
    if s.len() > k {
        lemma_leading_zeros(s.drop_last(), k);
        assert(s.skip(k).drop_last() =~= s.drop_last().skip(k));
    } else {
        lemma_all_zeros(s);
        assert(s.skip(k) =~= seq![]);
    }
}

proof fn lemma_all_zeros(s: Seq<char>)
    requires
        forall|i: int| 0 <= i < s.len() ==> #[trigger] s[i] == '0',
    ensures
        natural(s) == 0,
    decreases s.len(),
{
    if s.len() > 0 {
        assert(s[s.len() - 1] == '0');
        lemma_all_zeros(s.drop_last());
    }
}

/// The numeral of the number that `s` denotes, where it is digits only.
pub fn numeral_of(s: &str) -> (r: Option<Vec<char>>)
    ensures
        match r {
            Some(v) => is_numeral(v@) && natural_in(s@) == Some(natural(v@)),
            None => natural_in(s@) is None,
        },
{
    let v = text::chars_of(s);
    let n: usize = v.len();
    if n == 0 || end_of_digits(&v, 0) != n {
        return None;
    }
    assert(forall|i: int| 0 <= i < n ==> is_digit(#[trigger] v@[i]));
    let mut k: usize = 0;
    while k < n && v[k] == '0'
        invariant
            k <= n,
            n == v@.len(),
            forall|i: int| 0 <= i < k ==> #[trigger] v@[i] == '0',
        decreases n - k,
    {
        k += 1;
    }
    let mut out: Vec<char> = Vec::new();
    let mut i: usize = k;
    while i < n
        invariant
            k <= i <= n,
            n == v@.len(),
            out@ =~= v@.subrange(k as int, i as int),
        decreases n - i,
    {
        out.push(v[i]);
        i += 1;
    }
    assert(out@ =~= v@.skip(k as int));
    proof {
        lemma_leading_zeros(v@, k as int);
        assert forall|i: int| 0 <= i < out@.len() implies is_digit(#[trigger] out@[i]) by {
            assert(is_digit(v@[k + i]));
        }
    }
    Some(out)
}

/// Whether the numeral `a` denotes a smaller number than the numeral `b`.
pub fn numeral_less(a: &Vec<char>, b: &Vec<char>) -> (r: bool)
    requires
        is_numeral(a@),
        is_numeral(b@),
    ensures
        r == (natural(a@) < natural(b@)),
{
    if a.len() < b.len() {
        proof {
            lemma_longer(a@, b@);
        }
        return true;
    }
    if a.len() > b.len() {
        proof {
            lemma_longer(b@, a@);
        }
        return false;
    }
    let mut less = false;
    let mut more = false;
    let mut i: usize = 0;
    while i < a.len()
        invariant
            i <= a@.len(),
            a@.len() == b@.len(),
            is_numeral(a@),
            is_numeral(b@),
            less == (natural(a@.take(i as int)) < natural(b@.take(i as int))),
            more == (natural(a@.take(i as int)) > natural(b@.take(i as int))),
        decreases a.len() - i,
    {
        assert(a@.take(i + 1).drop_last() =~= a@.take(i as int));
        assert(b@.take(i + 1).drop_last() =~= b@.take(i as int));
        assert(is_digit(a@[i as int]) && is_digit(b@[i as int]));
        if !less && !more {
            less = a[i] < b[i];
            more = a[i] > b[i];
        }
        i += 1;
    }
    assert(a@.take(i as int) =~= a@);
    assert(b@.take(i as int) =~= b@);
    less
}

/// What is written for the number after the one that the numeral `v` denotes.
pub fn numeral_after(v: &Vec<char>) -> (r: String)
    requires
        is_numeral(v@),
    ensures
        r@ == text::decimal(natural(v@) + 1),
{
    let n: usize = v.len();
    let mut k: usize = n;
    let ghost mut nines: Seq<char> = seq![];
    assert(v@.take(n as int) =~= v@);
    assert(text::decimal(natural(v@) + 1) =~= text::decimal(natural(v@.take(n as int)) + 1) + nines);
    while k > 0 && v[k - 1] == '9'
        invariant
            k <= n,
            n == v@.len(),
            is_numeral(v@),
            nines.len() == n - k,
            forall|i: int| 0 <= i < nines.len() ==> #[trigger] nines[i] == '0',
            text::decimal(natural(v@) + 1) == text::decimal(natural(v@.take(k as int)) + 1) + nines,
        decreases k,
    {
        proof {
            let s = v@.take(k as int);
            assert(is_numeral(s));
            lemma_successor(s);
            assert(s.drop_last() =~= v@.take(k - 1));
            let fewer = text::decimal(natural(v@.take(k - 1)) + 1);
            let more = seq!['0'] + nines;
            assert(fewer.push('0') + nines =~= fewer + more);
            nines = more;
        }
        k -= 1;
    }
    let ghost s = v@.take(k as int);
    let ghost head = text::decimal(natural(s) + 1);
    proof {
        assert(is_numeral(s));
        lemma_successor(s);
    }
    let mut out = String::new();
    if k == 0 {
        out.push('1');
    } else {
        let mut i: usize = 0;
        while i < k - 1
            invariant
                0 < k <= n,
                i <= k - 1,
                n == v@.len(),
                out@ =~= v@.take(i as int),
            decreases k - i,
        {
            out.push(v[i]);
            i += 1;
        }
        let c = v[k - 1];
        assert(is_digit(c));
        out.push(((c as u8) + 1) as char);
        assert(s.drop_last() =~= v@.take(k - 1));
    }
    assert(out@ =~= head);
    let mut j: usize = k;
    while j < n
        invariant
            k <= j <= n,
            nines.len() == n - k,
            forall|i: int| 0 <= i < nines.len() ==> #[trigger] nines[i] == '0',
            out@ =~= head + nines.take(j - k),
        decreases n - j,
    {
        out.push('0');
        j += 1;
    }
    assert(nines.take(n - k) =~= nines);
    out
}

/// The parts of a decimal number: sign, digits before and after the point, and
/// the power of ten that it is multiplied by.
pub struct NumberV {
    pub negative: bool,
    pub whole: Seq<char>,
    pub part: Seq<char>,
    pub exponent: int,
}

/// The number that `s` denotes: an optional sign, digits, optionally a point and
/// digits, with at least one digit in all, and optionally an exponent.
pub open spec fn number_in(s: Seq<char>) -> Option<NumberV> {
    let len = s.len() as int;
    let a: int = if len > 0 && (s[0] == '+' || s[0] == '-') {
        1
    } else {
        0
    };
    let b = digits_end(s, a);
    let point = b < len && s[b] == '.';
    let c = if point {
        b + 1
    } else {
        b
    };
    let d = if point {
        digits_end(s, c)
    } else {
        b
    };
    let negative = len > 0 && s[0] == '-';
    if b == a && d == c {
        None
    } else if d == len {
        Some(
            NumberV {
                negative,
                whole: s.subrange(a, b),
                part: s.subrange(c, d),
                exponent: 0,
            },
        )
    } else if s[d] == 'e' || s[d] == 'E' {
        let e = d + 1;
        let minus = e < len && s[e] == '-';
        let g = if e < len && (s[e] == '+' || s[e] == '-') {
            e + 1
        } else {
            e
        };
        let h = digits_end(s, g);
        if h == len && g < h {
            let n = natural(s.subrange(g, h)) as int;
            Some(
                NumberV {
                    negative,
                    whole: s.subrange(a, b),
                    part: s.subrange(c, d),
                    exponent: if minus {
                        -n
                    } else {
                        n
                    },
                },
            )
        } else {
            None
        }
    } else {
        None
    }
}

/// Where the parts of a decimal number stand in its text, and the power of ten
/// that it is multiplied by, up to [`CEILING`] either way.
pub struct NumberParts {
    pub negative: bool,
    pub whole_from: usize,
    pub whole_to: usize,
    pub part_from: usize,
    pub part_to: usize,
    pub exponent: i128,
}

proof fn lemma_digits_end(s: Seq<char>, from: int, to: int)
    requires
        0 <= from <= to <= s.len(),
        forall|i: int| from <= i < to ==> is_digit(#[trigger] s[i]),
        to < s.len() ==> !is_digit(s[to]),
    ensures
        digits_end(s, from) == to,
    decreases to - from,
{
    if from < to {
        lemma_digits_end(s, from + 1, to);
    }
}

/// Digits with a point between them are the number with these digits before and behind the
/// point, and with a sign before them that number with that sign.
pub proof fn law_decimals_are_read(w: Seq<char>, p: Seq<char>)
    requires
        w.len() > 0,
        forall|i: int| 0 <= i < w.len() ==> is_digit(#[trigger] w[i]),
        forall|i: int| 0 <= i < p.len() ==> is_digit(#[trigger] p[i]),
    ensures
        number_in(w + seq!['.'] + p) == Some(
            NumberV { negative: false, whole: w, part: p, exponent: 0 },
        ),
        number_in(seq!['-'] + (w + seq!['.'] + p)) == Some(
            NumberV { negative: true, whole: w, part: p, exponent: 0 },
        ),
        number_in(w) == Some(NumberV { negative: false, whole: w, part: seq![], exponent: 0 }),
{
    let n = w.len() as int;
    let s = w + seq!['.'] + p;
    assert(s[0] == w[0]);
    assert forall|i: int| 0 <= i < n implies is_digit(#[trigger] s[i]) by {
        assert(s[i] == w[i]);
    }
    assert(s[n] == '.');
    assert forall|i: int| n + 1 <= i < s.len() implies is_digit(#[trigger] s[i]) by {
        assert(s[i] == p[i - n - 1]);
    }
    lemma_digits_end(s, 0, n);
    lemma_digits_end(s, n + 1, s.len() as int);
    assert(s.subrange(0, n) =~= w);
    assert(s.subrange(n + 1, s.len() as int) =~= p);
    let m = seq!['-'] + s;
    assert forall|i: int| 1 <= i < n + 1 implies is_digit(#[trigger] m[i]) by {
        assert(m[i] == w[i - 1]);
    }
    assert(m[n + 1] == '.');
    assert forall|i: int| n + 2 <= i < m.len() implies is_digit(#[trigger] m[i]) by {
        assert(m[i] == p[i - n - 2]);
    }
    lemma_digits_end(m, 1, n + 1);
    lemma_digits_end(m, n + 2, m.len() as int);
    assert(m.subrange(1, n + 1) =~= w);
    assert(m.subrange(n + 2, m.len() as int) =~= p);
    lemma_digits_end(w, 0, n);
    assert(w.subrange(0, n) =~= w);
    assert(w.subrange(n, n) =~= seq![]);
    assert(w[0] == w[0]);
}

/// A number is read as it is written: in digits, and these give the number back.
pub proof fn law_written_numbers_are_read_back(n: nat)
    ensures
        text::decimal(n).len() > 0,
        forall|i: int|
            0 <= i < text::decimal(n).len() ==> is_digit(#[trigger] text::decimal(n)[i]),
        natural(text::decimal(n)) == n,
    decreases n,
{
    let s = text::decimal(n);
    if n < 10 {
        assert(s.drop_last() =~= seq![]);
        assert(natural(seq![]) == 0);
        assert(s.last() == text::digit_char(n));
    } else {
        law_written_numbers_are_read_back(n / 10);
        assert(s.drop_last() =~= text::decimal(n / 10));
        assert(s.last() == text::digit_char(n % 10));
        assert forall|i: int| 0 <= i < s.len() implies is_digit(#[trigger] s[i]) by {
            if i < s.len() - 1 {
                assert(s[i] == text::decimal(n / 10)[i]);
            }
        }
    }
}

/// `n`, up to [`CEILING`] either way.
pub open spec fn limited(n: int) -> int {
    if n > CEILING {
        CEILING as int
    } else if n < -(CEILING as int) {
        -(CEILING as int)
    } else {
        n
    }
}

/// The parts of the number that `v` denotes.
pub fn parse_number(v: &Vec<char>) -> (r: Option<NumberParts>)
    ensures
        match r {
            Some(p) => {
                &&& number_in(v@) is Some
                &&& p.negative == number_in(v@)->0.negative
                &&& p.whole_from <= p.whole_to <= v@.len()
                &&& p.part_from <= p.part_to <= v@.len()
                &&& v@.subrange(p.whole_from as int, p.whole_to as int) == number_in(v@)->0.whole
                &&& v@.subrange(p.part_from as int, p.part_to as int) == number_in(v@)->0.part
                &&& p.exponent == limited(number_in(v@)->0.exponent)
                &&& forall|i: int|
                    p.whole_from <= i < p.whole_to || p.part_from <= i < p.part_to ==> is_digit(
                        #[trigger] v@[i],
                    )
            },
            None => number_in(v@) is None,
        },
{
    let len: usize = v.len();
    let negative = len > 0 && v[0] == '-';
    let a: usize = if len > 0 && (v[0] == '+' || v[0] == '-') {
        1
    } else {
        0
    };
    let b: usize = end_of_digits(v, a);
    let point = b < len && v[b] == '.';
    let c: usize = if point {
        b + 1
    } else {
        b
    };
    let d: usize = if point {
        end_of_digits(v, c)
    } else {
        b
    };
    if b == a && d == c {
        return None;
    }
    if d == len {
        return Some(
            NumberParts {
                negative,
                whole_from: a,
                whole_to: b,
                part_from: c,
                part_to: d,
                exponent: 0,
            },
        );
    }
    if v[d] == 'e' || v[d] == 'E' {
        let e: usize = d + 1;
        let minus = e < len && v[e] == '-';
        let g: usize = if e < len && (v[e] == '+' || v[e] == '-') {
            e + 1
        } else {
            e
        };
        let h: usize = end_of_digits(v, g);
        if h == len && g < h {
            let n: u128 = natural_up_to(v, g, h);
            let exponent: i128 = if minus {
                -(n as i128)
            } else {
                n as i128
            };
            return Some(
                NumberParts {
                    negative,
                    whole_from: a,
                    whole_to: b,
                    part_from: c,
                    part_to: d,
                    exponent,
                },
            );
        }
    }
    None
}

/// How many zeros `s` starts with.
pub open spec fn leading_zeros(s: Seq<char>) -> nat
    decreases s.len(),
{
    if s.len() > 0 && s[0] == '0' {
        1 + leading_zeros(s.skip(1))
    } else {
        0
    }
}

/// `s` without the zeros that it ends with.
pub open spec fn without_end_zeros(s: Seq<char>) -> Seq<char>
    decreases s.len(),
{
    if s.len() > 0 && s.last() == '0' {
        without_end_zeros(s.drop_last())
    } else {
        s
    }
}

/// A number written in one way only: its sign, the digits from the first to the last
/// that is not zero, and the power of ten that they, behind a point, are multiplied by.
/// Zero has no sign and no digits.
pub struct NormalV {
    pub negative: bool,
    pub digits: Seq<char>,
    pub place: int,
}

/// The number `n` written in one way only. Powers of ten beyond [`CEILING`] are not told
/// apart.
pub open spec fn normal(n: NumberV) -> NormalV {
    let d = n.whole + n.part;
    let z = leading_zeros(d);
    if z == d.len() {
        NormalV { negative: false, digits: seq![], place: 0 }
    } else {
        NormalV {
            negative: n.negative,
            digits: without_end_zeros(d.skip(z as int)),
            place: n.whole.len() + limited(n.exponent) - z,
        }
    }
}

/// The two texts denote the same number, or are the same text.
pub open spec fn same_number(a: Seq<char>, b: Seq<char>) -> bool {
    a == b || match (number_in(a), number_in(b)) {
        (Some(x), Some(y)) => normal(x) == normal(y),
        _ => false,
    }
}

/// A number written in one way only: see [`NormalV`].
struct Normal {
    negative: bool,
    digits: Vec<char>,
    place: i128,
}

impl View for Normal {
    type V = NormalV;

    closed spec fn view(&self) -> NormalV {
        NormalV { negative: self.negative, digits: self.digits@, place: self.place as int }
    }
}

proof fn lemma_leading_zeros_count(s: Seq<char>, k: int)
    requires
        0 <= k <= s.len(),
        forall|i: int| 0 <= i < k ==> #[trigger] s[i] == '0',
        k < s.len() ==> s[k] != '0',
    ensures
        leading_zeros(s) == k,
    decreases s.len(),
{
    if k > 0 {
        assert(s[0] == '0');
        let t = s.skip(1);
        assert forall|i: int| 0 <= i < k - 1 implies #[trigger] t[i] == '0' by {
            assert(s[i + 1] == '0');
        }
        lemma_leading_zeros_count(t, k - 1);
    }
}

/// The number that `s` denotes, written in one way only.
fn normalize(s: &str) -> (r: Option<Normal>)
    ensures
        match r {
            Some(n) => number_in(s@) is Some && n@ == normal(number_in(s@)->0),
            None => number_in(s@) is None,
        },
{
    let v = text::chars_of(s);
    let p = match parse_number(&v) {
        Some(p) => p,
        None => {
            return None;
        },
    };
    let ghost x = number_in(s@)->0;
    let ghost d = x.whole + x.part;
    let mut digits: Vec<char> = Vec::new();
    let mut i: usize = p.whole_from;
    while i < p.whole_to
        invariant
            p.whole_from <= i <= p.whole_to <= v@.len(),
            digits@ =~= v@.subrange(p.whole_from as int, i as int),
        decreases p.whole_to - i,
    {
        digits.push(v[i]);
        i += 1;
    }
    assert(digits@ =~= x.whole);
    let mut j: usize = p.part_from;
    while j < p.part_to
        invariant
            p.part_from <= j <= p.part_to <= v@.len(),
            digits@ =~= x.whole + v@.subrange(p.part_from as int, j as int),
        decreases p.part_to - j,
    {
        digits.push(v[j]);
        j += 1;
    }
    assert(digits@ =~= d);
    let n: usize = digits.len();
    let mut z: usize = 0;
    while z < n && digits[z] == '0'
        invariant
            z <= n,
            n == digits@.len(),
            forall|i: int| 0 <= i < z ==> #[trigger] digits@[i] == '0',
        decreases n - z,
    {
        z += 1;
    }
    proof {
        lemma_leading_zeros_count(d, z as int);
    }
    if z == n {
        let r = Normal { negative: false, digits: Vec::new(), place: 0 };
        assert(r@.digits =~= seq![]);
        return Some(r);
    }
    let mut to: usize = n;
    assert(d.subrange(z as int, n as int) =~= d.skip(z as int));
    while to > z && digits[to - 1] == '0'
        invariant
            z <= to <= n,
            n == digits@.len(),
            digits@ == d,
            without_end_zeros(d.skip(z as int)) == without_end_zeros(
                d.subrange(z as int, to as int),
            ),
        decreases to,
    {
        assert(d.subrange(z as int, to as int).drop_last() =~= d.subrange(z as int, to - 1));
        to -= 1;
    }
    let mut out: Vec<char> = Vec::new();
    let mut k: usize = z;
    while k < to
        invariant
            z <= k <= to <= n,
            n == digits@.len(),
            digits@ == d,
            out@ =~= d.subrange(z as int, k as int),
        decreases to - k,
    {
        out.push(digits[k]);
        k += 1;
    }
    let place: i128 = (p.whole_to - p.whole_from) as i128 + p.exponent - z as i128;
    let r = Normal { negative: p.negative, digits: out, place };
    assert(r@.digits =~= without_end_zeros(d.skip(z as int)));
    Some(r)
}

/// Whether the two texts denote the same number, or are the same text.
pub fn is_same_number(a: &str, b: &str) -> (r: bool)
    ensures
        r == same_number(a@, b@),
{
    if text::same(a, b) {
        return true;
    }
    match (normalize(a), normalize(b)) {
        (Some(x), Some(y)) => {
            if x.negative != y.negative || x.place != y.place || x.digits.len() != y.digits.len() {
                return false;
            }
            let mut i: usize = 0;
            while i < x.digits.len()
                invariant
                    i <= x.digits@.len(),
                    x.digits@.len() == y.digits@.len(),
                    forall|j: int| 0 <= j < i ==> #[trigger] x.digits@[j] == y.digits@[j],
                    x@.digits == x.digits@,
                    y@.digits == y.digits@,
                    a@ != b@,
                    number_in(a@) is Some && x@ == normal(number_in(a@)->0),
                    number_in(b@) is Some && y@ == normal(number_in(b@)->0),
                decreases x.digits.len() - i,
            {
                if x.digits[i] != y.digits[i] {
                    return false;
                }
                i += 1;
            }
            assert(x.digits@ =~= y.digits@);
            true
        },
        _ => false,
    }
}

/// The number after `n`, as far as numbers go.
pub open spec fn tallied(n: u64) -> u64 {
    if n < u64::MAX {
        (n + 1) as u64
    } else {
        n
    }
}

/// The number after `n`, as far as numbers go.
pub fn tally(n: u64) -> (r: u64)
    ensures
        r == tallied(n),
{
    if n < u64::MAX {
        n + 1
    } else {
        n
    }
}

} // verus!
