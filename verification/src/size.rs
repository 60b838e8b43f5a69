//! Memory sizes written for people: `512Mi`, `1Gi`, `100M`, `4096`.
//!
//! A size is a number, optionally followed by one unit. `Ki`, `Mi` and `Gi`
//! are the binary multiples 1024, 1024^2 and 1024^3; `K`, `M` and `G` are the
//! decimal multiples 1000, 1000^2 and 1000^3; without a unit the number is a
//! count of bytes. White space around the whole text is ignored. The number
//! is a run of decimal digits, which a single `+` may precede. A size that
//! does not fit in 64 bits is refused like any other malformed text.

use vstd::prelude::*;
use crate::text::chars_of;
use crate::text::ends_with;
use crate::text::is_whitespace;
use crate::text::leading_whitespace;
use crate::text::trim_end;
use crate::text::trim_start;
use crate::text::trim;
use crate::text::trim_bounds;

verus! {

/// Why a text is no memory size.
#[derive(Debug, Clone, Copy, PartialEq, Eq)]
pub enum ParseError {
    /// The number is missing or malformed, the unit is unknown, or the size
    /// does not fit in 64 bits.
    InvalidFormat,
}

/// The unit that a size is written in.
pub enum Unit {
    /// No unit: a count of bytes.
    Bytes,
    /// `K`, 1000 bytes.
    Kilo,
    /// `M`, 1000^2 bytes.
    Mega,
    /// `G`, 1000^3 bytes.
    Giga,
    /// `Ki`, 1024 bytes.
    Kibi,
    /// `Mi`, 1024^2 bytes.
    Mebi,
    /// `Gi`, 1024^3 bytes.
    Gibi,
}

impl Unit {
    /// How the unit is written.
    pub open spec fn suffix(self) -> Seq<char> {
        match self {
            Unit::Bytes => Seq::empty(),
            Unit::Kilo => seq!['K'],
            Unit::Mega => seq!['M'],
            Unit::Giga => seq!['G'],
            Unit::Kibi => seq!['K', 'i'],
            Unit::Mebi => seq!['M', 'i'],
            Unit::Gibi => seq!['G', 'i'],
        }
    }

    /// How many bytes one of the unit is.
    pub open spec fn multiplier(self) -> nat {
        match self {
            Unit::Bytes => 1,
            Unit::Kilo => 1000,
            Unit::Mega => 1000 * 1000,
            Unit::Giga => 1000 * 1000 * 1000,
            Unit::Kibi => 1024,
            Unit::Mebi => 1024 * 1024,
            Unit::Gibi => 1024 * 1024 * 1024,
        }
    }
}

/// The unit that the trimmed text `t` ends with; the two-letter units are
/// looked for first.
pub open spec fn unit_of(t: Seq<char>) -> Unit {
    if ends_with(t, Unit::Gibi.suffix()) {
        Unit::Gibi
    } else if ends_with(t, Unit::Mebi.suffix()) {
        Unit::Mebi
    } else if ends_with(t, Unit::Kibi.suffix()) {
        Unit::Kibi
    } else if ends_with(t, Unit::Giga.suffix()) {
        Unit::Giga
    } else if ends_with(t, Unit::Mega.suffix()) {
        Unit::Mega
    } else if ends_with(t, Unit::Kilo.suffix()) {
        Unit::Kilo
    } else {
        Unit::Bytes
    }
}

/// Whether `c` is one of the digits `0` to `9`.
pub open spec fn is_digit(c: char) -> bool {
    '0' <= c && c <= '9'
}

/// The number that the digit `c` stands for.
pub open spec fn digit_value(c: char) -> nat {
    (c as u32 - '0' as u32) as nat
}

/// Whether `d` holds digits only.
pub open spec fn all_digits(d: Seq<char>) -> bool {
    forall|i: int| 0 <= i < d.len() ==> is_digit(#[trigger] d[i])
}

/// The number that the decimal digits `d` stand for.
pub open spec fn digits_value(d: Seq<char>) -> nat
    decreases d.len(),
{
    if d.len() == 0 {
        0
    } else {
        10 * digits_value(d.drop_last()) + digit_value(d.last())
    }
}

/// The digits of a number: the text without the `+` that may precede them.
pub open spec fn unsigned_part(body: Seq<char>) -> Seq<char> {
    if body.len() > 0 && body[0] == '+' {
        body.drop_first()
    } else {
        body
    }
}

/// The number that `body` stands for, if it is one: at least one digit,
/// nothing but digits, and at most one `+` in front.
pub open spec fn literal_value(body: Seq<char>) -> Option<nat> {
    let d = unsigned_part(body);
    if d.len() > 0 && all_digits(d) {
        Some(digits_value(d))
    } else {
        None
    }
}

/// The size in bytes that `text` stands for, if it is a size that fits in 64
/// bits.
pub open spec fn parse_spec(text: Seq<char>) -> Option<nat> {
    let t = trim(text);
    let unit = unit_of(t);
    let body = t.take(t.len() - unit.suffix().len());
    match literal_value(body) {
        Some(v) => if v * unit.multiplier() <= u64::MAX {
            Some(v * unit.multiplier())
        } else {
            None
        },
        None => None,
    }
}

/// What parsing `text` returns.
pub open spec fn parse_result(text: Seq<char>) -> Result<u64, ParseError> {
    match parse_spec(text) {
        Some(v) => Ok(v as u64),
        None => Err(ParseError::InvalidFormat),
    }
}

/// The digits of a prefix stand for no more than the digits of the whole.
proof fn lemma_digits_prefix(d: Seq<char>, k: int)
    requires
        0 <= k <= d.len(),
    ensures
        digits_value(d.take(k)) <= digits_value(d),
    decreases d.len() - k,
{
    if k == d.len() {
        assert(d.take(k) =~= d);
    } else {
        lemma_digits_prefix(d, k + 1);
        assert(d.take(k + 1).drop_last() =~= d.take(k));
    }
}

/// The unit at the end of the text `s[start..end]`: the length of its
/// suffix and its multiplier.
fn unit_at_end(s: &Vec<char>, start: usize, end: usize) -> (found: (usize, u64))
    requires
        start <= end <= s@.len(),
    ensures
        found.0 == unit_of(s@.subrange(start as int, end as int)).suffix().len(),
        found.1 == unit_of(s@.subrange(start as int, end as int)).multiplier(),
{
    let ghost t = s@.subrange(start as int, end as int);
    let len = end - start;
    proof {
        if len >= 1 {
            assert(t.skip(len - 1) =~= seq![s@[end - 1]]);
            assert(seq![s@[end - 1]][0] == s@[end - 1]);
            assert(seq!['K'][0] == 'K' && seq!['M'][0] == 'M' && seq!['G'][0] == 'G');
        }
        if len >= 2 {
            let two = seq![s@[end - 2], s@[end - 1]];
            assert(t.skip(len - 2) =~= two);
            assert(two[0] == s@[end - 2] && two[1] == s@[end - 1]);
            assert(seq!['K', 'i'][0] == 'K' && seq!['K', 'i'][1] == 'i');
            assert(seq!['M', 'i'][0] == 'M' && seq!['M', 'i'][1] == 'i');
            assert(seq!['G', 'i'][0] == 'G' && seq!['G', 'i'][1] == 'i');
        }
    }
    if len >= 2 && s[end - 1] == 'i' {
        let c = s[end - 2];
        if c == 'G' {
            return (2, 1024 * 1024 * 1024);
        } else if c == 'M' {
            return (2, 1024 * 1024);
        } else if c == 'K' {
            return (2, 1024);
        }
    }
    if len >= 1 {
        let c = s[end - 1];
        if c == 'G' {
            return (1, 1000 * 1000 * 1000);
        } else if c == 'M' {
            return (1, 1000 * 1000);
        } else if c == 'K' {
            return (1, 1000);
        }
    }
    (0, 1)
}

/// The number written in `s[start..end]`, if it is one that fits in 64 bits.
fn literal_at(s: &Vec<char>, start: usize, end: usize) -> (value: Option<u64>)
    requires
        start <= end <= s@.len(),
    ensures
        match literal_value(s@.subrange(start as int, end as int)) {
            Some(v) => if v <= u64::MAX {
                value == Some(v as u64)
            } else {
                value is None
            },
            None => value is None,
        },
{
    let ghost body = s@.subrange(start as int, end as int);
    let mut first = start;
    if start < end && s[start] == '+' {
        first = start + 1;
        assert(body.drop_first() =~= s@.subrange(first as int, end as int));
    }
    let ghost d = s@.subrange(first as int, end as int);
    assert(d == unsigned_part(body));
    if first == end {
        return None;
    }
    let mut value: u64 = 0;
    let mut i = first;
    assert(d.take(0) =~= Seq::<char>::empty());
    while i < end
        invariant
            start <= first <= i <= end <= s@.len(),
            first < end,
            body == s@.subrange(start as int, end as int),
            d == s@.subrange(first as int, end as int),
            d == unsigned_part(body),
            all_digits(d.take(i - first)),
            value == digits_value(d.take(i - first)),
        decreases end - i,
    {
        let c = s[i];
        let ghost done = d.take(i - first);
        let ghost next = d.take(i + 1 - first);
        proof {
            assert(next.drop_last() =~= done);
            assert(next.last() == c);
            assert(d[i - first] == c);
        }
        if !('0' <= c && c <= '9') {
            assert(!all_digits(d));
            return None;
        }
        let digit: u64 = (c as u32 - '0' as u32) as u64;
        assert(digit == digit_value(c));
        let shifted = match value.checked_mul(10) {
            Some(x) => x,
            None => {
                proof {
                    lemma_digits_prefix(d, i + 1 - first);
                }
                return None;
            },
        };
        value = match shifted.checked_add(digit) {
            Some(x) => x,
            None => {
                proof {
                    lemma_digits_prefix(d, i + 1 - first);
                }
                return None;
            },
        };
        assert(all_digits(next)) by {
            assert forall|j: int| 0 <= j < next.len() implies is_digit(#[trigger] next[j]) by {
                if j < done.len() {
                    assert(next[j] == done[j]);
                }
            }
        }
        i += 1;
    }
    assert(d.take(end - first) =~= d);
    Some(value)
}

/// Parses a memory size such as `512Mi` or `1Gi` into a count of bytes.
pub fn parse_memory(mem_str: &str) -> (r: Result<u64, ParseError>)
    ensures
        r == parse_result(mem_str@),
{
    let s = chars_of(mem_str);
    let (start, end) = trim_bounds(&s);
    let ghost t = s@.subrange(start as int, end as int);
    let (suffix_len, multiplier) = unit_at_end(&s, start, end);
    let body_end = end - suffix_len;
    assert(t.take(t.len() - suffix_len) =~= s@.subrange(start as int, body_end as int));
    match literal_at(&s, start, body_end) {
        Some(v) => {
            proof {
                let unit = unit_of(t);
                assert(v * unit.multiplier() == v * multiplier);
            }
            match v.checked_mul(multiplier) {
                Some(bytes) => Ok(bytes),
                None => Err(ParseError::InvalidFormat),
            }
        },
        None => {
            proof {
                let unit = unit_of(t);
                let body = t.take(t.len() - suffix_len);
                if let Some(v) = literal_value(body) {
                    assert(v > u64::MAX);
                    assert(unit.multiplier() >= 1);
                    assert(v * unit.multiplier() >= v) by (nonlinear_arith)
                        requires
                            unit.multiplier() >= 1,
                            v >= 0,
                    ;
                }
            }
            Err(ParseError::InvalidFormat)
        },
    }
}

/// The digit that stands for `n`, for `n` below ten.
pub open spec fn digit_char(n: nat) -> char {
    if n == 0 {
        '0'
    } else if n == 1 {
        '1'
    } else if n == 2 {
        '2'
    } else if n == 3 {
        '3'
    } else if n == 4 {
        '4'
    } else if n == 5 {
        '5'
    } else if n == 6 {
        '6'
    } else if n == 7 {
        '7'
    } else if n == 8 {
        '8'
    } else {
        '9'
    }
}

/// The decimal digits of `n`, without leading zeros.
pub open spec fn decimal(n: nat) -> Seq<char>
    decreases n,
{
    if n < 10 {
        seq![digit_char(n)]
    } else {
        decimal(n / 10).push(digit_char(n % 10))
    }
}

/// The canonical way to write `n` of `unit`: the digits of `n`, then the
/// unit.
pub open spec fn canonical(n: nat, unit: Unit) -> Seq<char> {
    decimal(n) + unit.suffix()
}

/// The decimal digits of a number are digits, and stand for that number.
proof fn lemma_decimal(n: nat)
    ensures
        decimal(n).len() > 0,
        all_digits(decimal(n)),
        digits_value(decimal(n)) == n,
    decreases n,
{
    if n < 10 {
        let d = decimal(n);
        assert(d.drop_last() =~= Seq::<char>::empty());
        assert(digits_value(d.drop_last()) == 0);
        assert(d.last() == digit_char(n));
        assert(digit_value(digit_char(n)) == n);
        assert(digits_value(d) == n);
    } else {
        lemma_decimal(n / 10);
        let d = decimal(n);
        let front = decimal(n / 10);
        assert(d.drop_last() =~= front);
        assert(d.last() == digit_char(n % 10));
        assert(digit_value(digit_char(n % 10)) == n % 10);
        assert(digits_value(d) == 10 * (n / 10) + n % 10);
        assert forall|i: int| 0 <= i < d.len() implies is_digit(#[trigger] d[i]) by {
            if i < front.len() {
                assert(d[i] == front[i]);
            }
        }
    }
}

/// A text that neither starts nor ends with white space is its own trimmed
/// form.
proof fn lemma_trim_keeps(s: Seq<char>)
    requires
        s.len() > 0,
        !is_whitespace(s[0]),
        !is_whitespace(s.last()),
    ensures
        trim(s) == s,
{
    assert(leading_whitespace(s) == 0);
    assert(s.skip(0) =~= s);
    assert(trim_start(s) == s);
    assert(trim_end(s) == s);
}

/// A number written canonically parses to that number of its unit, as far as
/// the size fits in 64 bits.
pub proof fn lemma_parse_canonical(n: nat, unit: Unit)
    ensures
        parse_spec(canonical(n, unit)) == if n * unit.multiplier() <= u64::MAX {
            Some(n * unit.multiplier())
        } else {
            None
        },
{
    lemma_decimal(n);
    let d = decimal(n);
    let t = canonical(n, unit);
    let suffix = unit.suffix();
    assert(t[0] == d[0]);
    assert(is_digit(d[0]));
    assert(is_digit(d.last()));
    if suffix.len() == 0 {
        assert(t =~= d);
    } else {
        assert(t.last() == suffix.last());
    }
    lemma_trim_keeps(t);
    let len = t.len() as int;
    assert(t.skip(len - suffix.len()) =~= suffix);
    assert(t[len - 1] == if suffix.len() == 0 {
        d.last()
    } else {
        suffix.last()
    });
    if suffix.len() == 1 {
        assert(t[len - 2] == d.last());
    }
    if len >= 2 {
        assert(t.skip(len - 2)[0] == t[len - 2]);
        assert(t.skip(len - 2)[1] == t[len - 1]);
    }
    assert(t.skip(len - 1)[0] == t[len - 1]);
    assert(seq!['K'][0] == 'K' && seq!['M'][0] == 'M' && seq!['G'][0] == 'G');
    assert(seq!['K', 'i'][0] == 'K' && seq!['K', 'i'][1] == 'i');
    assert(seq!['M', 'i'][0] == 'M' && seq!['M', 'i'][1] == 'i');
    assert(seq!['G', 'i'][0] == 'G' && seq!['G', 'i'][1] == 'i');
    assert(unit_of(t) == unit);
    assert(t.take(len - suffix.len()) =~= d);
    assert(d[0] != '+');
    assert(unsigned_part(d) == d);
}

/// Writing a parsed size canonically, in the unit it was written in, and
/// parsing it again gives the same size.
pub proof fn lemma_parse_round_trip(text: Seq<char>)
    requires
        parse_spec(text) is Some,
    ensures
        ({
            let size = parse_spec(text)->0;
            let unit = unit_of(trim(text));
            &&& size % unit.multiplier() == 0
            &&& parse_spec(canonical(size / unit.multiplier(), unit)) == Some(size)
        }),
{
    let unit = unit_of(trim(text));
    let t = trim(text);
    let body = t.take(t.len() - unit.suffix().len());
    let v = literal_value(body)->0;
    let m = unit.multiplier();
    assert(m > 0);
    assert((v * m) % m == 0 && (v * m) / m == v) by (nonlinear_arith)
        requires
            m > 0,
            v >= 0,
    ;
    lemma_parse_canonical(v, unit);
}

} // verus!
