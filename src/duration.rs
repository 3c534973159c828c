use vstd::prelude::*;

use crate::decimal::{decimal, digit_char};

verus! {

/// A span of time, counted in whole milliseconds.
#[derive(Clone, Copy, Debug, PartialEq, Eq, Structural)]
pub struct Duration {
    pub millis: u64,
}

impl Duration {
    pub fn from_millis(millis: u64) -> (r: Duration)
        ensures
            r.millis == millis,
    {
        Duration { millis }
    }

    pub fn from_secs(secs: u64) -> (r: Duration)
        requires
            secs * 1000 <= u64::MAX,
        ensures
            r.millis == secs * 1000,
    {
        Duration { millis: secs * 1000 }
    }

    pub fn as_millis(&self) -> (r: u64)
        ensures
            r == self.millis,
    {
        self.millis
    }

    pub fn is_zero(&self) -> (r: bool)
        ensures
            r == (self.millis == 0),
    {
        self.millis == 0
    }
}

/// The error of every malformed duration string.
#[derive(Clone, Copy, Debug, PartialEq, Eq, Structural)]
pub struct InvalidDuration;

impl InvalidDuration {
    /// The text of the error, for diagnostics.
    pub fn message(&self) -> (r: String)
        ensures
            r@ == "invalid duration"@,
    {
        String::from_str("invalid duration")
    }
}

/// Characters with the Unicode `White_Space` property.
pub open spec fn is_white_space(c: char) -> bool {
    ||| ('\u{9}' <= c && c <= '\u{d}')
    ||| c == ' '
    ||| c == '\u{85}'
    ||| c == '\u{a0}'
    ||| c == '\u{1680}'
    ||| ('\u{2000}' <= c && c <= '\u{200a}')
    ||| c == '\u{2028}'
    ||| c == '\u{2029}'
    ||| c == '\u{202f}'
    ||| c == '\u{205f}'
    ||| c == '\u{3000}'
}

fn white_space(c: char) -> (r: bool)
    ensures
        r == is_white_space(c),
{
    ('\u{9}' <= c && c <= '\u{d}') || c == ' ' || c == '\u{85}' || c == '\u{a0}' || c
        == '\u{1680}' || ('\u{2000}' <= c && c <= '\u{200a}') || c == '\u{2028}' || c
        == '\u{2029}' || c == '\u{202f}' || c == '\u{205f}' || c == '\u{3000}'
}


/// `s` without its leading white space.
pub open spec fn trim_start(s: Seq<char>) -> Seq<char>
    decreases s.len(),
{
    if s.len() > 0 && is_white_space(s[0]) {
        trim_start(s.drop_first())
    } else {
        s
    }
}

/// `s` without its trailing white space.
pub open spec fn trim_end(s: Seq<char>) -> Seq<char>
    decreases s.len(),
{
    if s.len() > 0 && is_white_space(s.last()) {
        trim_end(s.drop_last())
    } else {
        s
    }
}

/// `s` without white space at either end.
pub open spec fn trim(s: Seq<char>) -> Seq<char> {
    trim_end(trim_start(s))
}

pub open spec fn is_digit(c: char) -> bool {
    '0' <= c && c <= '9'
}

pub open spec fn digit_value(c: char) -> nat {
    (c as u32 - '0' as u32) as nat
}

/// The index of the last ASCII digit of `s`, if it holds one.
pub open spec fn last_digit(s: Seq<char>) -> Option<int>
    decreases s.len(),
{
    if s.len() == 0 {
        None
    } else if is_digit(s.last()) {
        Some(s.len() - 1)
    } else {
        last_digit(s.drop_last())
    }
}

/// The number that the decimal digits `d` write.
pub open spec fn digits_value(d: Seq<char>) -> nat
    decreases d.len(),
{
    if d.len() == 0 {
        0
    } else {
        digits_value(d.drop_last()) * 10 + digit_value(d.last())
    }
}

pub open spec fn all_digits(d: Seq<char>) -> bool {
    forall|i: int| 0 <= i < d.len() ==> is_digit(#[trigger] d[i])
}

/// A magnitude is an unsigned decimal integer: one or more digits, and
/// nothing else.
pub open spec fn is_magnitude(m: Seq<char>) -> bool {
    m.len() > 0 && all_digits(m)
}

/// Milliseconds per unit, for the unit suffixes `ms`, `s`, `m`, `h` and `d`.
pub open spec fn unit_factor(u: Seq<char>) -> Option<nat> {
    if u == seq!['m', 's'] {
        Some(1)
    } else if u == seq!['s'] {
        Some(1000)
    } else if u == seq!['m'] {
        Some(60_000)
    } else if u == seq!['h'] {
        Some(3_600_000)
    } else if u == seq!['d'] {
        Some(86_400_000)
    } else {
        None
    }
}

/// The milliseconds that a magnitude and a unit suffix stand for, if they
/// are a valid duration: a bare magnitude must be zero, and the product
/// must fit in `u64`.
pub open spec fn scaled_millis(m: nat, unit: Seq<char>) -> Option<nat> {
    if unit.len() == 0 {
        if m == 0 {
            Some(0)
        } else {
            None
        }
    } else {
        match unit_factor(unit) {
            Some(f) => if m * f <= u64::MAX {
                Some(m * f)
            } else {
                None
            },
            None => None,
        }
    }
}

/// The milliseconds that the duration text `s` stands for, or `None` where
/// it is not a duration. After trimming white space, the text splits after
/// its last digit into a magnitude and a unit suffix.
pub open spec fn duration_millis(s: Seq<char>) -> Option<nat> {
    let t = trim(s);
    match last_digit(t) {
        None => None,
        Some(i) => {
            let mag = t.subrange(0, i + 1);
            let unit = t.subrange(i + 1, t.len() as int);
            if is_magnitude(mag) {
                scaled_millis(digits_value(mag), unit)
            } else {
                None
            }
        },
    }
}


fn digit(c: char) -> (r: bool)
    ensures
        r == is_digit(c),
{
    '0' <= c && c <= '9'
}

/// A prefix of a digit string never writes more than the whole string.
proof fn lemma_digits_value_prefix(d: Seq<char>, k: int)
    requires
        0 <= k <= d.len(),
    ensures
        digits_value(d.subrange(0, k)) <= digits_value(d),
    decreases d.len(),
{
    if k < d.len() {
        lemma_digits_value_prefix(d.drop_last(), k);
        assert(d.drop_last().subrange(0, k) =~= d.subrange(0, k));
    } else {
        assert(d.subrange(0, k) =~= d);
    }
}

/// The factor of the unit suffix `v[from..to]`, as `unit_factor` gives it.
fn unit_factor_of(v: &Vec<char>, from: usize, to: usize) -> (r: Option<u64>)
    requires
        from <= to <= v.len(),
    ensures
        match unit_factor(v@.subrange(from as int, to as int)) {
            Some(f) => r == Some(f as u64),
            None => r is None,
        },
{
    let ghost u = v@.subrange(from as int, to as int);
    if to - from == 1 {
        let c = v[from];
        assert(u[0] == c);
        if c == 's' {
            assert(u =~= seq!['s']);
            Some(1000)
        } else if c == 'm' {
            assert(u =~= seq!['m']);
            Some(60_000)
        } else if c == 'h' {
            assert(u =~= seq!['h']);
            Some(3_600_000)
        } else if c == 'd' {
            assert(u =~= seq!['d']);
            Some(86_400_000)
        } else {
            assert(u != seq!['m', 's']);
            assert(u != seq!['s'] && u != seq!['m'] && u != seq!['h'] && u != seq!['d']) by {
                assert(seq!['s'][0] == 's' && seq!['m'][0] == 'm');
                assert(seq!['h'][0] == 'h' && seq!['d'][0] == 'd');
            }
            None
        }
    } else if to - from == 2 && v[from] == 'm' && v[from + 1] == 's' {
        assert(u =~= seq!['m', 's']);
        Some(1)
    } else {
        assert(u != seq!['m', 's']) by {
            assert(seq!['m', 's'].len() == 2);
            assert(seq!['m', 's'][0] == 'm' && seq!['m', 's'][1] == 's');
            if to - from == 2 {
                assert(u[0] == v[from as int] && u[1] == v[from + 1]);
            }
        }
        assert(u.len() != 1);
        None
    }
}

/// The bounds of `v` without white space at either end.
fn trimmed_bounds(v: &Vec<char>) -> (r: (usize, usize))
    ensures
        r.0 <= r.1 <= v.len(),
        trim(v@) == v@.subrange(r.0 as int, r.1 as int),
{
    let len = v.len();
    let mut start: usize = 0;
    assert(v@.subrange(0, len as int) =~= v@);
    while start < len && white_space(v[start])
        invariant
            start <= len,
            len == v@.len(),
            trim_start(v@) == trim_start(v@.subrange(start as int, len as int)),
        decreases len - start,
    {
        assert(v@.subrange(start as int, len as int).drop_first() =~= v@.subrange(
            start + 1,
            len as int,
        ));
        start += 1;
    }
    assert(trim_start(v@) == v@.subrange(start as int, len as int));

    let mut end: usize = len;
    while end > start && white_space(v[end - 1])
        invariant
            start <= end <= len,
            len == v@.len(),
            trim(v@) == trim_end(v@.subrange(start as int, end as int)),
        decreases end,
    {
        assert(v@.subrange(start as int, end as int).drop_last() =~= v@.subrange(
            start as int,
            end - 1,
        ));
        end -= 1;
    }
    (start, end)
}

/// The position just after the last digit of `v[from..to]`, or `from`
/// where it holds none.
fn after_last_digit(v: &Vec<char>, from: usize, to: usize) -> (r: usize)
    requires
        from <= to <= v.len(),
    ensures
        from <= r <= to,
        r == from ==> last_digit(v@.subrange(from as int, to as int)) is None,
        r > from ==> last_digit(v@.subrange(from as int, to as int)) == Some((r - 1 - from) as int),
{
    let mut i: usize = to;
    while i > from && !digit(v[i - 1])
        invariant
            from <= i <= to <= v.len(),
            last_digit(v@.subrange(from as int, to as int)) == last_digit(
                v@.subrange(from as int, i as int),
            ),
        decreases i,
    {
        assert(v@.subrange(from as int, i as int).drop_last() =~= v@.subrange(
            from as int,
            i - 1,
        ));
        i -= 1;
    }
    i
}

/// The value of the magnitude `v[from..to]`, where it is one and its value
/// fits in `u64`.
fn parse_magnitude(v: &Vec<char>, from: usize, to: usize) -> (r: Option<u64>)
    requires
        from <= to <= v.len(),
    ensures
        ({
            let m = v@.subrange(from as int, to as int);
            match r {
                Some(x) => is_magnitude(m) && x == digits_value(m),
                None => !is_magnitude(m) || digits_value(m) > u64::MAX,
            }
        }),
{
    let ghost digits = v@.subrange(from as int, to as int);
    if from == to {
        return None;
    }
    let mut value: u64 = 0;
    let mut k: usize = from;
    while k < to
        invariant
            from <= k <= to <= v.len(),
            digits == v@.subrange(from as int, to as int),
            value == digits_value(v@.subrange(from as int, k as int)),
            all_digits(v@.subrange(from as int, k as int)),
        decreases to - k,
    {
        let c = v[k];
        if !digit(c) {
            assert(digits[k - from] == c);
            return None;
        }
        let ghost next = v@.subrange(from as int, k + 1);
        assert(next.drop_last() =~= v@.subrange(from as int, k as int));
        assert(next.last() == c);
        let d = (c as u32 - '0' as u32) as u64;
        let step = match value.checked_mul(10) {
            Some(x) => x.checked_add(d),
            None => None,
        };
        match step {
            Some(x) => {
                value = x;
            },
            None => {
                proof {
                    assert(digits_value(next) > u64::MAX);
                    assert(next =~= digits.subrange(0, k + 1 - from));
                    lemma_digits_value_prefix(digits, k + 1 - from);
                }
                return None;
            },
        }
        k += 1;
    }
    assert(v@.subrange(from as int, k as int) =~= digits);
    Some(value)
}

/// Parses a duration: optional white space, a magnitude (an unsigned
/// decimal integer, digits only), an optional unit suffix
/// out of `ms`, `s`, `m`, `h`, `d`, and optional white space. A bare
/// magnitude must be zero. A duration that does not fit in `u64`
/// milliseconds is an error.
pub fn parse_duration(s: &str) -> (r: Result<Duration, InvalidDuration>)
    ensures
        match duration_millis(s@) {
            Some(ms) => r == Ok::<Duration, InvalidDuration>(Duration { millis: ms as u64 }),
            None => r == Err::<Duration, InvalidDuration>(InvalidDuration),
        },
{
    let mut v: Vec<char> = Vec::new();
    for c in it: s.chars()
        invariant
            v@ == it.seq().subrange(0, it.index() as int),
    {
        v.push(c);
    }
    assert(v@ =~= s@);

    let (start, end) = trimmed_bounds(&v);
    let ghost t = v@.subrange(start as int, end as int);
    let i = after_last_digit(&v, start, end);
    if i == start {
        return Err(InvalidDuration);
    }
    let ghost mag = t.subrange(0, i - start);
    let ghost unit = t.subrange(i - start, t.len() as int);
    assert(mag =~= v@.subrange(start as int, i as int));
    assert(unit =~= v@.subrange(i as int, end as int));

    let value = match parse_magnitude(&v, start, i) {
        Some(x) => x,
        None => {
            proof {
                if is_magnitude(mag) && unit.len() > 0 {
                    if let Some(f) = unit_factor(unit) {
                        let m = digits_value(mag);
                        assert(m * f >= m) by (nonlinear_arith)
                            requires
                                f >= 1,
                        ;
                    }
                }
            }
            return Err(InvalidDuration);
        },
    };
    if i == end {
        if value == 0 {
            return Ok(Duration::from_millis(0));
        } else {
            return Err(InvalidDuration);
        }
    }
    match unit_factor_of(&v, i, end) {
        None => Err(InvalidDuration),
        Some(f) => match value.checked_mul(f) {
            Some(ms) => Ok(Duration::from_millis(ms)),
            None => Err(InvalidDuration),
        },
    }
}

/// Canonical decimal text is a nonempty run of digits that writes its number.
proof fn lemma_decimal_digits(n: nat)
    ensures
        decimal(n).len() >= 1,
        all_digits(decimal(n)),
        digits_value(decimal(n)) == n,
    decreases n,
{
    let c = digit_char(n % 10);
    assert(c as u32 == 48 + n % 10);
    assert(digit_value(c) == n % 10);
    if n < 10 {
        assert(n % 10 == n);
        assert(decimal(n).drop_last() =~= Seq::<char>::empty());
        assert(digits_value(Seq::<char>::empty()) == 0);
        assert(decimal(n).last() == c);
    } else {
        lemma_decimal_digits(n / 10);
        let d = decimal(n);
        assert(d.drop_last() =~= decimal(n / 10));
        assert(d.last() == c);
        assert((n / 10) * 10 + n % 10 == n);
        assert(digits_value(d) == digits_value(decimal(n / 10)) * 10 + digit_value(c));
        assert forall|i: int| 0 <= i < d.len() implies is_digit(#[trigger] d[i]) by {
            if i < d.len() - 1 {
                assert(d[i] == decimal(n / 10)[i]);
            }
        }
    }
}

/// Where nothing after `d` is a digit, the last digit of `d + u` is the
/// last character of `d`.
proof fn lemma_last_digit_before(d: Seq<char>, u: Seq<char>)
    requires
        d.len() >= 1,
        is_digit(d.last()),
        forall|i: int| 0 <= i < u.len() ==> !is_digit(#[trigger] u[i]),
    ensures
        last_digit(d + u) == Some(d.len() - 1),
    decreases u.len(),
{
    if u.len() > 0 {
        assert((d + u).drop_last() =~= d + u.drop_last());
        assert(u.drop_last().len() < u.len());
        assert forall|i: int| 0 <= i < u.drop_last().len() implies !is_digit(
            #[trigger] u.drop_last()[i],
        ) by {
            assert(u.drop_last()[i] == u[i]);
        }
        assert(!is_digit(u[u.len() - 1]));
        lemma_last_digit_before(d, u.drop_last());
    } else {
        assert(d + u =~= d);
    }
}

/// A magnitude written in canonical decimal, followed by a unit suffix,
/// parses to the magnitude times the unit's factor in milliseconds,
/// whenever that product fits in `u64`. A bare canonical zero parses to
/// zero.
pub proof fn lemma_canonical_duration(m: nat, unit: Seq<char>)
    requires
        unit_factor(unit) is Some,
        m * unit_factor(unit)->0 <= u64::MAX,
    ensures
        duration_millis(decimal(m) + unit) == Some(m * unit_factor(unit)->0),
        duration_millis(decimal(0)) == Some(0nat),
{
    reveal_with_fuel(decimal, 2);
    lemma_decimal_digits(m);
    lemma_decimal_digits(0);
    let d = decimal(m);
    let t = d + unit;
    assert(unit.len() >= 1 && unit.len() <= 2);
    assert(!is_digit(unit[0]) && !is_digit(unit.last()));
    assert(!is_white_space(unit[0]) && !is_white_space(unit.last()));
    assert(forall|i: int| 0 <= i < unit.len() ==> !is_digit(#[trigger] unit[i]));
    assert(is_digit(d[0]) && is_digit(d.last()));
    assert(t[0] == d[0] && t.last() == unit.last());
    assert(trim_start(t) == t);
    assert(trim(t) == t);
    lemma_last_digit_before(d, unit);
    assert(t.subrange(0, d.len() as int) =~= d);
    assert(t.subrange(d.len() as int, t.len() as int) =~= unit);

    let z = decimal(0);
    assert(z =~= seq!['0']);
    assert(trim_start(z) == z);
    assert(trim(z) == z);
    assert(z.drop_last() =~= Seq::<char>::empty());
    assert(last_digit(z) == Some(0int));
    assert(z.subrange(0, 1) =~= z);
    assert(z.subrange(1, 1) =~= Seq::<char>::empty());
}

} // verus!
