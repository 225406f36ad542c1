//! Character-level helpers: conversions between strings and character
//! vectors, trimming, line splitting, and reading and writing numerals.
use vstd::prelude::*;
use vstd::std_specs::iter::IteratorSpec;
use vstd::string::*;

verus! {

/// `String::push` appends one character to the end of the string.
pub assume_specification[ String::push ](s: &mut String, c: char)
    ensures
        final(s)@ == old(s)@.push(c),
;

/// Whether a character carries the Unicode `White_Space` property.
pub uninterp spec fn is_white_space(c: char) -> bool;

/// `char::is_whitespace` reports the Unicode `White_Space` property of a
/// character; the property is a fixed table, so the answer depends on the
/// character alone.
pub assume_specification[ char::is_whitespace ](c: char) -> (b: bool)
    ensures
        b == is_white_space(c),
;

/// The views of a sequence of strings.
pub open spec fn texts(v: Seq<String>) -> Seq<Seq<char>> {
    v.map_values(|s: String| s@)
}

/// The characters of `s`, in order.
pub fn to_chars(s: &str) -> (v: Vec<char>)
    ensures
        v@ == s@,
{
    broadcast use vstd::string::group_string_axioms;

    let mut v: Vec<char> = Vec::new();
    let mut rest = s.chars();
    loop
        invariant
            v@ + rest.remaining() == s@,
            rest.obeys_prophetic_iter_laws(),
            rest.decrease() is Some,
        decreases rest.decrease()->0,
    {
        let ghost before = rest.remaining();
        match rest.next() {
            Some(c) => {
                v.push(c);
                assert(v@ + rest.remaining() =~= s@) by {
                    assert(rest.remaining() == before.drop_first());
                    assert(c == before[0]);
                }
            },
            None => {
                assert(v@ =~= s@);
                return v;
            },
        }
    }
}

/// The string made of the characters `v[from..to]`.
pub fn substring(v: &Vec<char>, from: usize, to: usize) -> (s: String)
    requires
        from <= to <= v.len(),
    ensures
        s@ == v@.subrange(from as int, to as int),
{
    let mut s = String::new();
    let mut i: usize = from;
    while i < to
        invariant
            from <= i <= to <= v.len(),
            s@ == v@.subrange(from as int, i as int),
        decreases to - i,
    {
        s.push(v[i]);
        i += 1;
        assert(s@ =~= v@.subrange(from as int, i as int));
    }
    s
}

/// Whether two strings hold the same characters.
pub fn str_eq(a: &str, b: &str) -> (r: bool)
    ensures
        r == (a@ == b@),
{
    let x = a.as_bytes();
    let y = b.as_bytes();
    proof {
        vstd::utf8::encode_utf8_decode_utf8(a@);
        vstd::utf8::encode_utf8_decode_utf8(b@);
        assert(a@ == b@ <==> x@ == y@);
    }
    if x.len() != y.len() {
        return false;
    }
    let mut i: usize = 0;
    while i < x.len()
        invariant
            i <= x.len(),
            x.len() == y.len(),
            a@ == b@ <==> x@ == y@,
            forall|k: int| 0 <= k < i ==> x@[k] == y@[k],
        decreases x.len() - i,
    {
        if x[i] != y[i] {
            return false;
        }
        i += 1;
    }
    assert(x@ =~= y@);
    true
}

/// The position of the first `c` in `s`, or the length of `s` when there is
/// none.
pub open spec fn first_index(s: Seq<char>, c: char) -> int
    decreases s.len(),
{
    if s.len() == 0 || s[0] == c {
        0
    } else {
        1 + first_index(s.drop_first(), c)
    }
}

/// `n` is the first position of `c` in `s` as soon as nothing before `n` is
/// `c` and `n` is either the end or a `c`.
proof fn lemma_first_index(s: Seq<char>, c: char, n: int)
    requires
        0 <= n <= s.len(),
        forall|k: int| 0 <= k < n ==> s[k] != c,
        n == s.len() || s[n] == c,
    ensures
        first_index(s, c) == n,
    decreases s.len(),
{
    if n > 0 {
        let t = s.drop_first();
        assert forall|k: int| 0 <= k < n - 1 implies t[k] != c by {
            assert(t[k] == s[k + 1]);
        }
        lemma_first_index(t, c, n - 1);
    }
}

/// Position of the first `c` at or after `from`, or the length of `v`.
pub fn find_char(v: &Vec<char>, from: usize, c: char) -> (n: usize)
    requires
        from <= v.len(),
    ensures
        from <= n <= v.len(),
        n - from == first_index(v@.subrange(from as int, v.len() as int), c),
{
    let mut i: usize = from;
    while i < v.len() && v[i] != c
        invariant
            from <= i <= v.len(),
            forall|k: int| from <= k < i ==> v@[k] != c,
        decreases v.len() - i,
    {
        i += 1;
    }
    proof {
        lemma_first_index(v@.subrange(from as int, v.len() as int), c, i - from);
    }
    i
}

/// `s` without its leading white space.
pub open spec fn trim_start(s: Seq<char>) -> Seq<char>
    decreases s.len(),
{
    if s.len() > 0 && is_white_space(s[0]) {
        trim_start(s.drop_first())
    } else {
        s
    }
}

/// `s` without its trailing white space.
pub open spec fn trim_end(s: Seq<char>) -> Seq<char>
    decreases s.len(),
{
    if s.len() > 0 && is_white_space(s.last()) {
        trim_end(s.drop_last())
    } else {
        s
    }
}

/// `s` without leading and trailing white space.
pub open spec fn trimmed(s: Seq<char>) -> Seq<char> {
    trim_end(trim_start(s))
}

/// The bounds `(from, to)` of `v` without leading and trailing white space.
pub fn trim_bounds(v: &Vec<char>) -> (r: (usize, usize))
    ensures
        r.0 <= r.1 <= v.len(),
        v@.subrange(r.0 as int, r.1 as int) == trimmed(v@),
{
    let n: usize = v.len();
    let mut i: usize = 0;
    assert(v@.subrange(0, n as int) =~= v@);
    while i < n && v[i].is_whitespace()
        invariant
            i <= n == v.len(),
            trim_start(v@) == trim_start(v@.subrange(i as int, n as int)),
        decreases n - i,
    {
        assert(v@.subrange(i as int, n as int).drop_first() =~= v@.subrange(i + 1, n as int));
        i += 1;
    }
    let mut j: usize = n;
    while j > i && v[j - 1].is_whitespace()
        invariant
            i <= j <= n == v.len(),
            trim_start(v@) == v@.subrange(i as int, n as int),
            trimmed(v@) == trim_end(v@.subrange(i as int, j as int)),
        decreases j,
    {
        assert(v@.subrange(i as int, j as int).drop_last() =~= v@.subrange(i as int, j - 1));
        j -= 1;
    }
    (i, j)
}

/// `s` without leading and trailing white space.
pub fn trim(s: &str) -> (r: String)
    ensures
        r@ == trimmed(s@),
{
    let v = to_chars(s);
    let (i, j) = trim_bounds(&v);
    substring(&v, i, j)
}

/// A line without the carriage return that may end it.
pub open spec fn without_cr(l: Seq<char>) -> Seq<char> {
    if l.len() > 0 && l.last() == '\r' {
        l.drop_last()
    } else {
        l
    }
}

/// The lines of a text. A line ends at a line feed, which is not part of it,
/// nor is a carriage return right before the line feed; what follows the last
/// line feed is a line only when it is not empty.
pub open spec fn lines_of(s: Seq<char>) -> Seq<Seq<char>>
    decreases s.len(),
{
    if s.len() == 0 {
        Seq::empty()
    } else {
        let n = first_index(s, '\n');
        if 0 <= n < s.len() {
            seq![without_cr(s.subrange(0, n))] + lines_of(s.subrange(n + 1, s.len() as int))
        } else {
            seq![s]
        }
    }
}

/// The lines of `s`.
pub fn lines(s: &str) -> (out: Vec<String>)
    ensures
        texts(out@) == lines_of(s@),
{
    let v = to_chars(s);
    let n: usize = v.len();
    let mut out: Vec<String> = Vec::new();
    let mut start: usize = 0;
    assert(v@.subrange(0, n as int) =~= v@);
    assert(texts(out@) =~= Seq::<Seq<char>>::empty());
    while start < n
        invariant
            start <= n == v.len(),
            lines_of(v@) == texts(out@) + lines_of(v@.subrange(start as int, n as int)),
        decreases n - start,
    {
        let ghost rest = v@.subrange(start as int, n as int);
        let ghost before = texts(out@);
        let end: usize = find_char(&v, start, '\n');
        if end < n {
            let stop: usize = if end > start && v[end - 1] == '\r' {
                end - 1
            } else {
                end
            };
            let line = substring(&v, start, stop);
            proof {
                assert(rest.subrange(0, end - start) =~= v@.subrange(start as int, end as int));
                assert(rest.subrange(end - start + 1, rest.len() as int) =~= v@.subrange(
                    end + 1,
                    n as int,
                ));
                assert(line@ =~= without_cr(v@.subrange(start as int, end as int)));
            }
            out.push(line);
            proof {
                assert(texts(out@) =~= before + seq![line@]);
                assert(before + (seq![line@] + lines_of(v@.subrange(end + 1, n as int)))
                    =~= (before + seq![line@]) + lines_of(v@.subrange(end + 1, n as int)));
            }
            start = end + 1;
        } else {
            let line = substring(&v, start, n);
            out.push(line);
            proof {
                assert(texts(out@) =~= before + seq![rest]);
                assert(lines_of(v@.subrange(n as int, n as int)) =~= Seq::<Seq<char>>::empty());
                assert(texts(out@) + Seq::<Seq<char>>::empty() =~= texts(out@));
            }
            start = n;
        }
    }
    assert(texts(out@) + Seq::<Seq<char>>::empty() =~= texts(out@));
    out
}

/// `s` without any occurrence of `c`.
pub open spec fn without_char(s: Seq<char>, c: char) -> Seq<char>
    decreases s.len(),
{
    if s.len() == 0 {
        s
    } else if s.last() == c {
        without_char(s.drop_last(), c)
    } else {
        without_char(s.drop_last(), c).push(s.last())
    }
}

/// The characters `v[from..]` without any occurrence of `c`.
pub fn remove_char(v: &Vec<char>, c: char) -> (s: String)
    ensures
        s@ == without_char(v@, c),
{
    let mut s = String::new();
    let mut i: usize = 0;
    assert(v@.subrange(0, 0) =~= Seq::<char>::empty());
    while i < v.len()
        invariant
            i <= v.len(),
            s@ == without_char(v@.subrange(0, i as int), c),
        decreases v.len() - i,
    {
        assert(v@.subrange(0, i + 1).drop_last() =~= v@.subrange(0, i as int));
        if v[i] != c {
            s.push(v[i]);
        }
        i += 1;
    }
    assert(v@.subrange(0, v.len() as int) =~= v@);
    s
}

/// The digits a numeral may be written in.
#[derive(Clone, Copy, Debug, PartialEq, Eq, Structural)]
pub enum Alphabet {
    /// `0` to `9`, base ten.
    Decimal,
    /// `0` to `9` and `A` to `F` in either case, base sixteen.
    Hex,
    /// Every ASCII character stands for its own code, base 256.
    Ascii,
}

/// The base of an alphabet.
pub open spec fn radix_of(a: Alphabet) -> int {
    match a {
        Alphabet::Decimal => 10,
        Alphabet::Hex => 16,
        Alphabet::Ascii => 256,
    }
}

/// The value of one digit, if `c` is a digit of the alphabet.
pub open spec fn digit_value(c: char, a: Alphabet) -> Option<int> {
    let code = (c as u32) as int;
    match a {
        Alphabet::Decimal => if 48 <= code <= 57 {
            Some(code - 48)
        } else {
            None
        },
        Alphabet::Hex => if 48 <= code <= 57 {
            Some(code - 48)
        } else if 65 <= code <= 70 {
            Some(code - 55)
        } else if 97 <= code <= 102 {
            Some(code - 87)
        } else {
            None
        },
        Alphabet::Ascii => if code <= 127 {
            Some(code)
        } else {
            None
        },
    }
}

/// Whether every character of `s` is a digit of the alphabet.
pub open spec fn all_digits(s: Seq<char>, a: Alphabet) -> bool {
    forall|i: int| 0 <= i < s.len() ==> (#[trigger] digit_value(s[i], a)) is Some
}

/// The number that the digits of `s` write, most significant digit first.
pub open spec fn number_value(s: Seq<char>, a: Alphabet) -> int
    decreases s.len(),
{
    if s.len() == 0 {
        0
    } else {
        number_value(s.drop_last(), a) * radix_of(a) + match digit_value(s.last(), a) {
            Some(d) => d,
            None => 0,
        }
    }
}

/// `b` to the power `e`.
pub open spec fn power(b: int, e: nat) -> int
    decreases e,
{
    if e == 0 {
        1
    } else {
        b * power(b, (e - 1) as nat)
    }
}

/// A numeral is never negative, and its prefixes write no larger numbers.
proof fn lemma_number_prefix(s: Seq<char>, a: Alphabet, i: int)
    requires
        0 <= i <= s.len(),
        all_digits(s, a),
    ensures
        0 <= number_value(s.subrange(0, i), a) <= number_value(s, a),
    decreases s.len() - i,
{
    if i == s.len() {
        assert(s.subrange(0, i) =~= s);
        lemma_number_nonnegative(s, a);
    } else {
        let t = s.subrange(0, i + 1);
        assert(t.drop_last() =~= s.subrange(0, i));
        assert(digit_value(s[i], a) is Some);
        assert(t.last() == s[i]);
        lemma_number_prefix(s, a, i + 1);
        lemma_number_nonnegative(s.subrange(0, i), a);
        let p = number_value(s.subrange(0, i), a);
        let r = radix_of(a);
        assert(p * r >= p) by (nonlinear_arith)
            requires
                p >= 0,
                r >= 1,
        ;
    }
}

/// A numeral is never negative.
proof fn lemma_number_nonnegative(s: Seq<char>, a: Alphabet)
    requires
        all_digits(s, a),
    ensures
        0 <= number_value(s, a),
    decreases s.len(),
{
    if s.len() > 0 {
        let t = s.drop_last();
        assert forall|i: int| 0 <= i < t.len() implies (#[trigger] digit_value(t[i], a)) is Some by {
            assert(t[i] == s[i]);
        }
        lemma_number_nonnegative(t, a);
        let d = digit_value(s[s.len() - 1], a);
        assert(d is Some);
        assert(s.last() == s[s.len() - 1]);
        assert(d.unwrap() >= 0);
        let p = number_value(t, a);
        let r = radix_of(a);
        assert(r >= 1);
        assert(p * r >= 0) by (nonlinear_arith)
            requires
                p >= 0,
                r >= 1,
        ;
        assert(number_value(s, a) == p * r + d.unwrap());
    }
}

/// A numeral of `n` digits is below the base to the power `n`.
pub proof fn lemma_number_bound(s: Seq<char>, a: Alphabet)
    requires
        all_digits(s, a),
    ensures
        0 <= number_value(s, a) < power(radix_of(a), s.len()),
    decreases s.len(),
{
    lemma_number_nonnegative(s, a);
    if s.len() > 0 {
        let t = s.drop_last();
        assert forall|i: int| 0 <= i < t.len() implies (#[trigger] digit_value(t[i], a)) is Some by {
            assert(t[i] == s[i]);
        }
        lemma_number_bound(t, a);
        assert(digit_value(s[s.len() - 1], a) is Some);
        let p = number_value(t, a);
        let r = radix_of(a);
        let q = power(r, t.len());
        assert(p * r + (r - 1) < r * q) by (nonlinear_arith)
            requires
                0 <= p < q,
                r >= 1,
        ;
    }
}

/// Powers of a base of at least one grow with the exponent.
pub proof fn lemma_power_grows(b: int, e: nat, f: nat)
    requires
        b >= 1,
        e <= f,
    ensures
        1 <= power(b, e) <= power(b, f),
    decreases f,
{
    if e == 0 {
        if f > 0 {
            lemma_power_grows(b, 0, (f - 1) as nat);
            let q = power(b, (f - 1) as nat);
            assert(b * q >= 1) by (nonlinear_arith)
                requires
                    b >= 1,
                    q >= 1,
            ;
        }
    } else {
        lemma_power_grows(b, (e - 1) as nat, (f - 1) as nat);
        let p = power(b, (e - 1) as nat);
        let q = power(b, (f - 1) as nat);
        assert(1 <= b * p <= b * q) by (nonlinear_arith)
            requires
                b >= 1,
                1 <= p <= q,
        ;
    }
}

/// The number written by `s`, when `s` is a non-empty run of digits that
/// writes at most `limit`.
pub open spec fn parse_unsigned(s: Seq<char>, a: Alphabet, limit: int) -> Option<int> {
    if s.len() > 0 && all_digits(s, a) && number_value(s, a) <= limit {
        Some(number_value(s, a))
    } else {
        None
    }
}

/// The value of `c` as a digit of the alphabet, if it is one.
pub fn digit_of(c: char, a: Alphabet) -> (d: Option<u8>)
    ensures
        match d {
            Some(x) => digit_value(c, a) == Some(x as int),
            None => digit_value(c, a) is None,
        },
{
    let code: u32 = c as u32;
    match a {
        Alphabet::Decimal => if 48 <= code && code <= 57 {
            Some((code - 48) as u8)
        } else {
            None
        },
        Alphabet::Hex => if 48 <= code && code <= 57 {
            Some((code - 48) as u8)
        } else if 65 <= code && code <= 70 {
            Some((code - 55) as u8)
        } else if 97 <= code && code <= 102 {
            Some((code - 87) as u8)
        } else {
            None
        },
        Alphabet::Ascii => if code <= 127 {
            Some(code as u8)
        } else {
            None
        },
    }
}

/// The base of an alphabet.
pub fn radix(a: Alphabet) -> (r: u64)
    ensures
        r == radix_of(a),
{
    match a {
        Alphabet::Decimal => 10,
        Alphabet::Hex => 16,
        Alphabet::Ascii => 256,
    }
}

/// Reads `v[from..to]` as a numeral of at most `limit`.
pub fn read_number(v: &Vec<char>, from: usize, to: usize, a: Alphabet, limit: u64) -> (r: Option<
    u64,
>)
    requires
        from <= to <= v.len(),
    ensures
        match r {
            Some(n) => parse_unsigned(v@.subrange(from as int, to as int), a, limit as int)
                == Some(n as int),
            None => parse_unsigned(v@.subrange(from as int, to as int), a, limit as int) is None,
        },
{
    let ghost s = v@.subrange(from as int, to as int);
    if from == to {
        return None;
    }
    let base: u64 = radix(a);
    let mut acc: u64 = 0;
    let mut i: usize = from;
    assert(s.subrange(0, 0) =~= Seq::<char>::empty());
    while i < to
        invariant
            from <= i <= to <= v.len(),
            s == v@.subrange(from as int, to as int),
            base == radix_of(a),
            all_digits(s.subrange(0, i - from), a),
            acc == number_value(s.subrange(0, i - from), a),
            acc <= limit,
        decreases to - i,
    {
        let ghost head = s.subrange(0, i - from);
        let ghost next = s.subrange(0, i - from + 1);
        proof {
            assert(next.drop_last() =~= head);
            assert(next.last() == v@[i as int]);
            assert(s[i - from] == v@[i as int]);
        }
        match digit_of(v[i], a) {
            None => {
                return None;
            },
            Some(d) => {
                assert(0 <= acc * base <= 0xFFFF_FFFF_FFFF_FFFF * 256) by (nonlinear_arith)
                    requires
                        0 <= acc <= 0xFFFF_FFFF_FFFF_FFFF,
                        0 <= base <= 256,
                ;
                let wide: u128 = (acc as u128) * (base as u128) + (d as u128);
                proof {
                    assert forall|k: int| 0 <= k < next.len() implies (#[trigger] digit_value(
                        next[k],
                        a,
                    )) is Some by {
                        if k < head.len() {
                            assert(next[k] == head[k]);
                        }
                    }
                    assert(wide == number_value(next, a));
                    if all_digits(s, a) {
                        lemma_number_prefix(s, a, i - from + 1);
                    }
                }
                if wide > limit as u128 {
                    return None;
                }
                acc = wide as u64;
            },
        }
        i += 1;
    }
    assert(s.subrange(0, to - from) =~= s);
    Some(acc)
}

/// Whether `v[from..to]` holds only digits of the alphabet.
pub fn digits_only(v: &Vec<char>, from: usize, to: usize, a: Alphabet) -> (r: bool)
    requires
        from <= to <= v.len(),
    ensures
        r == all_digits(v@.subrange(from as int, to as int), a),
{
    let ghost s = v@.subrange(from as int, to as int);
    let mut i: usize = from;
    while i < to
        invariant
            from <= i <= to <= v.len(),
            s == v@.subrange(from as int, to as int),
            forall|k: int| 0 <= k < i - from ==> (#[trigger] digit_value(s[k], a)) is Some,
        decreases to - i,
    {
        if digit_of(v[i], a).is_none() {
            assert(digit_value(s[i - from], a) is None);
            return false;
        }
        assert(digit_value(s[i - from], a) is Some);
        i += 1;
    }
    true
}

/// The number written by `s` in decimal, with an optional `+` in front, or a
/// `-` where `signed` allows it, when it lies between `lo` and `hi`.
pub open spec fn parse_decimal(s: Seq<char>, signed: bool, lo: int, hi: int) -> Option<int> {
    let negative = signed && s.len() > 0 && s[0] == '-';
    let body = if s.len() > 0 && (s[0] == '+' || negative) {
        s.drop_first()
    } else {
        s
    };
    if body.len() == 0 || !all_digits(body, Alphabet::Decimal) {
        None
    } else {
        let v = if negative {
            -number_value(body, Alphabet::Decimal)
        } else {
            number_value(body, Alphabet::Decimal)
        };
        if lo <= v <= hi {
            Some(v)
        } else {
            None
        }
    }
}

/// Reads `s` as a decimal number between `lo` and `hi`.
pub fn read_decimal(s: &str, signed: bool, lo: i64, hi: i64) -> (r: Option<i64>)
    requires
        -0x1_0000_0000 <= lo <= 0 <= hi <= 0x1_0000_0000,
    ensures
        match r {
            Some(n) => parse_decimal(s@, signed, lo as int, hi as int) == Some(n as int),
            None => parse_decimal(s@, signed, lo as int, hi as int) is None,
        },
{
    let v = to_chars(s);
    let n: usize = v.len();
    let negative: bool = signed && n > 0 && v[0] == '-';
    let from: usize = if n > 0 && (v[0] == '+' || negative) {
        1
    } else {
        0
    };
    let limit: u64 = if negative {
        (-lo) as u64
    } else {
        hi as u64
    };
    let ghost body = v@.subrange(from as int, n as int);
    proof {
        if from == 1 {
            assert(body =~= v@.drop_first());
        } else {
            assert(body =~= v@);
        }
        if all_digits(body, Alphabet::Decimal) {
            lemma_number_nonnegative(body, Alphabet::Decimal);
        }
    }
    match read_number(&v, from, n, Alphabet::Decimal, limit) {
        Some(m) => if negative {
            Some(-(m as i64))
        } else {
            Some(m as i64)
        },
        None => None,
    }
}

/// The character that writes the digit `d`, in upper case.
pub open spec fn digit_char(d: int) -> char {
    if d == 0 {
        '0'
    } else if d == 1 {
        '1'
    } else if d == 2 {
        '2'
    } else if d == 3 {
        '3'
    } else if d == 4 {
        '4'
    } else if d == 5 {
        '5'
    } else if d == 6 {
        '6'
    } else if d == 7 {
        '7'
    } else if d == 8 {
        '8'
    } else if d == 9 {
        '9'
    } else if d == 10 {
        'A'
    } else if d == 11 {
        'B'
    } else if d == 12 {
        'C'
    } else if d == 13 {
        'D'
    } else if d == 14 {
        'E'
    } else {
        'F'
    }
}

/// The shortest numeral of `n`, most significant digit first: in base
/// sixteen where `hex` is set, else in base ten.
pub open spec fn numeral(n: nat, hex: bool) -> Seq<char>
    decreases n,
{
    if hex {
        if n < 16 {
            seq![digit_char(n as int)]
        } else {
            numeral(n / 16, hex).push(digit_char((n % 16) as int))
        }
    } else {
        if n < 10 {
            seq![digit_char(n as int)]
        } else {
            numeral(n / 10, hex).push(digit_char((n % 10) as int))
        }
    }
}

/// `s` with `fill` put in front until it is `width` long.
pub open spec fn pad_left(s: Seq<char>, width: nat, fill: char) -> Seq<char> {
    if s.len() >= width {
        s
    } else {
        Seq::new((width - s.len()) as nat, |i: int| fill) + s
    }
}

/// `n` in upper-case hexadecimal, with zeros in front up to `width` digits.
pub open spec fn hex_field(n: nat, width: nat) -> Seq<char> {
    pad_left(numeral(n, true), width, '0')
}

/// The character that writes the digit `d`.
pub fn digit_to_char(d: u8) -> (c: char)
    ensures
        c == digit_char(d as int),
{
    if d == 0 {
        '0'
    } else if d == 1 {
        '1'
    } else if d == 2 {
        '2'
    } else if d == 3 {
        '3'
    } else if d == 4 {
        '4'
    } else if d == 5 {
        '5'
    } else if d == 6 {
        '6'
    } else if d == 7 {
        '7'
    } else if d == 8 {
        '8'
    } else if d == 9 {
        '9'
    } else if d == 10 {
        'A'
    } else if d == 11 {
        'B'
    } else if d == 12 {
        'C'
    } else if d == 13 {
        'D'
    } else if d == 14 {
        'E'
    } else {
        'F'
    }
}

/// Appends the shortest numeral of `n` to `out`: in base sixteen where
/// `hex` is set, else in base ten.
pub fn push_numeral(out: &mut String, n: u64, hex: bool)
    ensures
        final(out)@ == old(out)@ + numeral(n as nat, hex),
    decreases n,
{
    let base: u64 = if hex {
        16
    } else {
        10
    };
    if n < base {
        out.push(digit_to_char(n as u8));
        assert(out@ =~= old(out)@ + numeral(n as nat, hex));
    } else {
        push_numeral(out, n / base, hex);
        out.push(digit_to_char((n % base) as u8));
        assert(out@ =~= old(out)@ + numeral(n as nat, hex));
    }
}

/// Appends `fill` to `out` `count` times.
pub fn push_fill(out: &mut String, count: u64, fill: char)
    ensures
        final(out)@ == old(out)@ + Seq::new(count as nat, |i: int| fill),
{
    let mut i: u64 = 0;
    assert(out@ =~= old(out)@ + Seq::new(0, |i: int| fill));
    while i < count
        invariant
            i <= count,
            out@ == old(out)@ + Seq::new(i as nat, |k: int| fill),
        decreases count - i,
    {
        out.push(fill);
        i += 1;
        assert(out@ =~= old(out)@ + Seq::new(i as nat, |k: int| fill));
    }
}

/// Appends `s` to `out`, with `fill` in front up to `width` characters.
pub fn push_padded(out: &mut String, s: &str, width: u64, fill: char)
    ensures
        final(out)@ == old(out)@ + pad_left(s@, width as nat, fill),
{
    let n: u64 = s.unicode_len() as u64;
    if n < width {
        push_fill(out, width - n, fill);
    }
    out.append(s);
    assert(out@ =~= old(out)@ + pad_left(s@, width as nat, fill));
}

/// Appends `n` in upper-case hexadecimal to `out`, at least `width` digits.
pub fn push_hex(out: &mut String, n: u64, width: u64)
    ensures
        final(out)@ == old(out)@ + hex_field(n as nat, width as nat),
{
    let mut digits = String::new();
    push_numeral(&mut digits, n, true);
    assert(digits@ =~= numeral(n as nat, true));
    push_padded(out, digits.as_str(), width, '0');
}

/// `n` in decimal.
pub fn decimal(n: u64) -> (s: String)
    ensures
        s@ == numeral(n as nat, false),
{
    let mut s = String::new();
    push_numeral(&mut s, n, false);
    assert(s@ =~= numeral(n as nat, false));
    s
}

} // verus!
