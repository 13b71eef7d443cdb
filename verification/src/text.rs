use vstd::prelude::*;
use vstd::string::StringExecFns;

verus! {

/// Two texts hold the same characters.
pub fn str_eq(a: &str, b: &str) -> (same: bool)
    ensures
        same == (a@ == b@),
{
    let n = a.unicode_len();
    if n != b.unicode_len() {
        return false;
    }
    let mut i: usize = 0;
    while i < n
        invariant
            n == a@.len(),
            n == b@.len(),
            i <= n,
            forall|j: int| 0 <= j < i ==> a@[j] == b@[j],
        decreases n - i,
    {
        if a.get_char(i) != b.get_char(i) {
            return false;
        }
        i += 1;
    }
    assert(a@ =~= b@);
    true
}

/// A line without the carriage return that may end it.
pub open spec fn strip_cr(line: Seq<char>) -> Seq<char> {
    if line.len() > 0 && line.last() == '\r' {
        line.drop_last()
    } else {
        line
    }
}

/// The position of the first line feed at or after `from`, or the length.
pub open spec fn line_end(s: Seq<char>, from: int) -> int
    decreases s.len() - from,
{
    if from >= s.len() {
        s.len() as int
    } else if s[from] == '\n' {
        from
    } else {
        line_end(s, from + 1)
    }
}

/// The lines of a text from position `from` on, as `str::lines` gives
/// them: split at line feeds, a carriage return before a line feed
/// dropped, and no empty line after a final line feed.
pub open spec fn lines_from(s: Seq<char>, from: int) -> Seq<Seq<char>>
    decreases s.len() - from,
{
    if from >= s.len() || from < 0 {
        Seq::empty()
    } else {
        let end = line_end(s, from);
        proof { lemma_line_end(s, from); }
        if end >= s.len() {
            seq![strip_cr(s.subrange(from, end))]
        } else {
            seq![strip_cr(s.subrange(from, end))] + lines_from(s, end + 1)
        }
    }
}

pub proof fn lemma_line_end(s: Seq<char>, from: int)
    requires
        0 <= from <= s.len(),
    ensures
        from <= line_end(s, from) <= s.len(),
        line_end(s, from) < s.len() ==> s[line_end(s, from)] == '\n',
        forall|j: int| from <= j < line_end(s, from) ==> s[j] != '\n',
    decreases s.len() - from,
{
    if from < s.len() && s[from] != '\n' {
        lemma_line_end(s, from + 1);
    }
}

/// The line starting at `from`, without its line feed or carriage return.
fn line_at(text: &str, from: usize) -> (result: (String, usize))
    requires
        from < text@.len(),
    ensures
        result.1 == line_end(text@, from as int),
        result.0@ == strip_cr(text@.subrange(from as int, line_end(text@, from as int))),
{
    proof { lemma_line_end(text@, from as int); }
    let n = text.unicode_len();
    let mut end = from;
    while end < n && text.get_char(end) != '\n'
        invariant
            n == text@.len(),
            from <= end <= n,
            forall|j: int| from <= j < end ==> text@[j] != '\n',
            line_end(text@, from as int) == line_end(text@, end as int),
        decreases n - end,
    {
        end += 1;
    }
    let mut line_end_pos = end;
    if end > from && text.get_char(end - 1) == '\r' {
        line_end_pos = end - 1;
    }
    let line = text.substring_char(from, line_end_pos);
    let ghost whole = text@.subrange(from as int, end as int);
    assert(line_end_pos < end ==> whole.drop_last() =~= text@.subrange(from as int, line_end_pos as int));
    (String::from_str(line), end)
}

/// The lines of a text, as `str::lines` gives them.
pub fn text_lines(text: &str) -> (lines: Vec<String>)
    ensures
        lines@.len() == lines_from(text@, 0).len(),
        forall|i: int| 0 <= i < lines@.len() ==> #[trigger] lines@[i]@ == lines_from(text@, 0)[i],
{
    let n = text.unicode_len();
    let mut lines: Vec<String> = Vec::new();
    let mut from: usize = 0;
    while from < n
        invariant
            n == text@.len(),
            from <= n,
            lines@.len() + lines_from(text@, from as int).len() == lines_from(text@, 0).len(),
            forall|i: int| 0 <= i < lines@.len() ==> #[trigger] lines@[i]@ == lines_from(text@, 0)[i],
            forall|i: int| 0 <= i < lines_from(text@, from as int).len()
                ==> lines_from(text@, 0)[lines@.len() + i] == #[trigger] lines_from(text@, from as int)[i],
        decreases n - from,
    {
        let (line, end) = line_at(text, from);
        proof {
            lemma_line_end(text@, from as int);
            let rest = lines_from(text@, from as int);
            assert(rest[0] == line@);
            if end < n {
                assert(rest =~= seq![line@] + lines_from(text@, end as int + 1));
                assert forall|i: int| 0 <= i < lines_from(text@, end as int + 1).len()
                    implies lines_from(text@, 0)[lines@.len() + 1 + i] == #[trigger] lines_from(text@, end as int + 1)[i] by {
                    assert(rest[i + 1] == lines_from(text@, end as int + 1)[i]);
                }
            }
        }
        lines.push(line);
        if end >= n {
            proof {
                assert(lines_from(text@, from as int).len() == 1);
            }
            from = n;
            assert(lines_from(text@, n as int).len() == 0);
        } else {
            from = end + 1;
        }
    }
    assert(lines_from(text@, from as int).len() == 0);
    lines
}

/// The value of a run of decimal digits.
pub open spec fn digits_value(s: Seq<char>) -> int
    decreases s.len(),
{
    if s.len() == 0 {
        0
    } else {
        digits_value(s.drop_last()) * 10 + (s.last() as int - '0' as int)
    }
}

pub open spec fn is_digit(c: char) -> bool {
    '0' <= c <= '9'
}

pub open spec fn all_digits(s: Seq<char>) -> bool {
    forall|i: int| 0 <= i < s.len() ==> is_digit(#[trigger] s[i])
}

/// A decimal integer as `str::parse` reads it for an integer type whose
/// values run from `min` to `max`: an optional sign (a minus only where
/// `min` is negative), then one digit or more, and a value in range.
pub open spec fn parse_int(s: Seq<char>, min: int, max: int) -> Option<int> {
    let negative = s.len() > 0 && s[0] == '-';
    let digits = if s.len() > 0 && (s[0] == '+' || s[0] == '-') { s.drop_first() } else { s };
    let value = if negative { -digits_value(digits) } else { digits_value(digits) };
    if digits.len() == 0 || !all_digits(digits) || (negative && min >= 0) || value < min || value > max {
        None
    } else {
        Some(value)
    }
}

proof fn lemma_digits_value_nonneg(s: Seq<char>)
    requires
        all_digits(s),
    ensures
        digits_value(s) >= 0,
        s.len() > 0 ==> digits_value(s) >= digits_value(s.drop_last()),
    decreases s.len(),
{
    if s.len() > 0 {
        assert(all_digits(s.drop_last())) by {
            assert forall|i: int| 0 <= i < s.drop_last().len() implies is_digit(#[trigger] s.drop_last()[i]) by {
                assert(s.drop_last()[i] == s[i]);
            }
        }
        assert(is_digit(s[s.len() - 1]));
        lemma_digits_value_nonneg(s.drop_last());
    }
}

/// Reads a decimal integer between `min` and `max`, as `str::parse` does
/// for an integer type of that range.
pub fn parse_integer(s: &str, min: i128, max: i128) -> (result: Option<i128>)
    requires
        -0x1_0000_0000_0000_0000 <= min <= 0 <= max <= 0x1_0000_0000_0000_0000,
    ensures
        match parse_int(s@, min as int, max as int) {
            Some(v) => result == Some(v as i128),
            None => result is None,
        },
{
    let n = s.unicode_len();
    if n == 0 {
        return None;
    }
    let first = s.get_char(0);
    let negative = first == '-';
    let start: usize = if first == '+' || first == '-' { 1 } else { 0 };
    let ghost digits = if first == '+' || first == '-' { s@.drop_first() } else { s@ };
    assert(digits =~= s@.subrange(start as int, n as int));
    if start == n {
        return None;
    }
    if negative && min >= 0 {
        return None;
    }
    let bound: i128 = if negative { -min } else { max };
    let mut value: i128 = 0;
    let mut i: usize = start;
    while i < n
        invariant
            n == s@.len(),
            start <= i <= n,
            digits == s@.subrange(start as int, n as int),
            0 <= bound <= 0x1_0000_0000_0000_0000,
            n > 0,
            -0x1_0000_0000_0000_0000 <= min <= 0 <= max <= 0x1_0000_0000_0000_0000,
            negative == (s@[0] == '-'),
            start == (if s@[0] == '+' || s@[0] == '-' { 1usize } else { 0usize }),
            digits == (if s@.len() > 0 && (s@[0] == '+' || s@[0] == '-') { s@.drop_first() } else { s@ }),
            bound == (if negative { -min } else { max as int }),
            !(negative && min >= 0),
            all_digits(s@.subrange(start as int, i as int)),
            value == digits_value(s@.subrange(start as int, i as int)),
            0 <= value <= bound,
        decreases n - i,
    {
        let c = s.get_char(i);
        assert(s@.subrange(start as int, i as int + 1).drop_last() =~= s@.subrange(start as int, i as int));
        if c < '0' || c > '9' {
            assert(!all_digits(digits)) by {
                assert(digits[i - start] == c);
            }
            return None;
        }
        let d = (c as u32 - '0' as u32) as i128;
        assert(all_digits(s@.subrange(start as int, i as int + 1))) by {
            assert forall|j: int| 0 <= j < i + 1 - start implies is_digit(#[trigger] s@.subrange(start as int, i as int + 1)[j]) by {
                if j < i - start {
                    assert(s@.subrange(start as int, i as int + 1)[j] == s@.subrange(start as int, i as int)[j]);
                }
            }
        }
        let next = value * 10 + d;
        if next > bound {
            proof {
                // the remaining digits only make the value larger
                lemma_digits_prefix_grows(s@.subrange(start as int, n as int), i + 1 - start);
                assert(s@.subrange(start as int, n as int).take(i + 1 - start) =~= s@.subrange(start as int, i as int + 1));
            }
            return None;
        }
        value = next;
        i += 1;
    }
    if negative {
        Some(-value)
    } else {
        Some(value)
    }
}

proof fn lemma_digits_prefix_grows(s: Seq<char>, k: int)
    requires
        0 <= k <= s.len(),
        all_digits(s.take(k)),
    ensures
        all_digits(s) ==> digits_value(s) >= digits_value(s.take(k)),
    decreases s.len() - k,
{
    if k < s.len() && all_digits(s) {
        assert(all_digits(s.take(k + 1))) by {
            assert forall|j: int| 0 <= j < k + 1 implies is_digit(#[trigger] s.take(k + 1)[j]) by {
                assert(s.take(k + 1)[j] == s[j]);
            }
        }
        lemma_digits_prefix_grows(s, k + 1);
        assert(s.take(k + 1).drop_last() =~= s.take(k));
        lemma_digits_value_nonneg(s.take(k + 1));
    } else if k == s.len() {
        assert(s.take(k) =~= s);
    }
}

/// `c` is the lower-case letter `l`, in either case.
pub open spec fn letter_is(c: char, l: char) -> bool {
    c == l || ('A' <= c <= 'Z' && c as u32 + 32 == l as u32)
}

pub open spec fn digits_in(s: Seq<char>, a: int, b: int) -> bool {
    forall|i: int| a <= i < b ==> is_digit(#[trigger] s[i])
}

/// `s[a..b]` is the word `w` (lower case), in any case.
pub open spec fn word_in(s: Seq<char>, a: int, b: int, w: Seq<char>) -> bool {
    &&& b - a == w.len()
    &&& forall|i: int| 0 <= i < w.len() ==> letter_is(#[trigger] s[a + i], w[i])
}

/// `s[a..b]` is digits, with at most one point among them and one digit at
/// least.
pub open spec fn mantissa_in(s: Seq<char>, a: int, b: int) -> bool {
    ||| a < b && digits_in(s, a, b)
    ||| exists|d: int| a <= d < b && s[d] == '.' && digits_in(s, a, d) && digits_in(s, d + 1, b) && b - a >= 2
}

/// `s[a..b]` is an exponent after its `e`: an optional sign, then digits.
pub open spec fn exponent_in(s: Seq<char>, a: int, b: int) -> bool {
    let start = if a < b && (s[a] == '+' || s[a] == '-') { a + 1 } else { a };
    start < b && digits_in(s, start, b)
}

/// `s[a..b]` is a decimal number: a mantissa, then maybe an exponent.
pub open spec fn number_in(s: Seq<char>, a: int, b: int) -> bool {
    ||| mantissa_in(s, a, b)
    ||| exists|m: int| a <= m < b && letter_is(s[m], 'e') && mantissa_in(s, a, m) && exponent_in(s, m + 1, b)
}

/// A text that `str::parse` reads as a floating point number: an optional
/// sign, then `inf`, `infinity` or `nan` (in any case) or a decimal number
/// with an optional exponent.
pub open spec fn float_text(s: Seq<char>) -> bool {
    let a = if s.len() > 0 && (s[0] == '+' || s[0] == '-') { 1int } else { 0int };
    ||| word_in(s, a, s.len() as int, "inf"@)
    ||| word_in(s, a, s.len() as int, "infinity"@)
    ||| word_in(s, a, s.len() as int, "nan"@)
    ||| number_in(s, a, s.len() as int)
}

fn letter_matches(c: char, l: char) -> (r: bool)
    ensures
        r == letter_is(c, l),
{
    c == l || ('A' <= c && c <= 'Z' && (c as u32) + 32 == (l as u32))
}

/// The first index in `a..b` holding no digit, or `b`.
fn first_non_digit(s: &str, a: usize, b: usize) -> (p: usize)
    requires
        a <= b <= s@.len(),
    ensures
        a <= p <= b,
        digits_in(s@, a as int, p as int),
        p < b ==> !is_digit(s@[p as int]),
{
    let mut p = a;
    while p < b
        invariant
            a <= p <= b <= s@.len(),
            digits_in(s@, a as int, p as int),
        decreases b - p,
    {
        let c = s.get_char(p);
        if !('0' <= c && c <= '9') {
            return p;
        }
        p += 1;
    }
    p
}

fn word_matches(s: &str, a: usize, b: usize, w: &str) -> (r: bool)
    requires
        a <= b <= s@.len(),
    ensures
        r == word_in(s@, a as int, b as int, w@),
{
    let n = w.unicode_len();
    if b - a != n {
        return false;
    }
    let mut i: usize = 0;
    while i < n
        invariant
            i <= n,
            n == w@.len(),
            b - a == n,
            b <= s@.len(),
            forall|j: int| 0 <= j < i ==> letter_is(#[trigger] s@[a + j], w@[j]),
        decreases n - i,
    {
        if !letter_matches(s.get_char(a + i), w.get_char(i)) {
            return false;
        }
        i += 1;
    }
    true
}

fn mantissa_matches(s: &str, a: usize, b: usize) -> (r: bool)
    requires
        a <= b <= s@.len(),
    ensures
        r == mantissa_in(s@, a as int, b as int),
{
    let p = first_non_digit(s, a, b);
    if p == b {
        if a < b {
            return true;
        }
        proof {
            assert forall|d: int| !(a <= d < b && #[trigger] s@[d] == '.') by {}
        }
        return false;
    }
    let ghost sv = s@;
    if s.get_char(p) != '.' {
        proof {
            assert forall|d: int| !(a <= d < b && #[trigger] sv[d] == '.' && digits_in(sv, a as int, d)
                && digits_in(sv, d + 1, b as int) && b - a >= 2) by {
                if a <= d < b && sv[d] == '.' && digits_in(sv, a as int, d) {
                    if d < p {
                        assert(is_digit(sv[d]));
                    } else if d > p {
                        assert(is_digit(sv[p as int]));
                    }
                }
            }
        }
        return false;
    }
    let q = first_non_digit(s, p + 1, b);
    proof {
        assert forall|d: int| a <= d < b && #[trigger] sv[d] == '.' && digits_in(sv, a as int, d) implies d == p by {
            if d < p {
                assert(is_digit(sv[d]));
            } else if d > p {
                assert(is_digit(sv[p as int]));
            }
        }
        if q < b {
            assert(!is_digit(sv[q as int]));
        }
    }
    q == b && b - a >= 2
}

fn exponent_matches(s: &str, a: usize, b: usize) -> (r: bool)
    requires
        a <= b <= s@.len(),
    ensures
        r == exponent_in(s@, a as int, b as int),
{
    let start = if a < b && (s.get_char(a) == '+' || s.get_char(a) == '-') { a + 1 } else { a };
    let p = first_non_digit(s, start, b);
    start < b && p == b
}

fn number_matches(s: &str, a: usize, b: usize) -> (r: bool)
    requires
        a <= b <= s@.len(),
    ensures
        r == number_in(s@, a as int, b as int),
{
    let ghost sv = s@;
    let mut m = a;
    while m < b && !letter_matches(s.get_char(m), 'e')
        invariant
            a <= m <= b <= s@.len(),
            sv == s@,
            forall|j: int| a <= j < m ==> !letter_is(#[trigger] sv[j], 'e'),
        decreases b - m,
    {
        m += 1;
    }
    if m == b {
        let r = mantissa_matches(s, a, b);
        proof {
            assert forall|k: int| !(a <= k < b && #[trigger] letter_is(sv[k], 'e')) by {}
        }
        return r;
    }
    proof {
        assert(letter_is(sv[m as int], 'e'));
        assert(!is_digit(sv[m as int]) && sv[m as int] != '.');
        // No mantissa runs over the letter at `m`.
        assert forall|e: int| m < e <= b implies !mantissa_in(sv, a as int, e) by {
            if a < e && digits_in(sv, a as int, e) {
                assert(is_digit(sv[m as int]));
            }
            assert forall|d: int| !(a <= d < e && #[trigger] sv[d] == '.' && digits_in(sv, a as int, d)
                && digits_in(sv, d + 1, e) && e - a >= 2) by {
                if a <= d < e && sv[d] == '.' && digits_in(sv, a as int, d) && digits_in(sv, d + 1, e) {
                    if d < m {
                        assert(is_digit(sv[m as int]));
                    } else if d > m {
                        assert(is_digit(sv[m as int]));
                    }
                }
            }
        }
        assert(!mantissa_in(sv, a as int, b as int));
        assert forall|k: int| a <= k < b && #[trigger] letter_is(sv[k], 'e') && mantissa_in(sv, a as int, k) implies k == m by {
            if k > m {
                assert(!mantissa_in(sv, a as int, k));
            }
        }
    }
    mantissa_matches(s, a, m) && exponent_matches(s, m + 1, b)
}

/// Whether `str::parse` reads the text as a floating point number.
pub fn is_float_text(s: &str) -> (r: bool)
    ensures
        r == float_text(s@),
{
    let n = s.unicode_len();
    let a: usize = if n > 0 && (s.get_char(0) == '+' || s.get_char(0) == '-') { 1 } else { 0 };
    word_matches(s, a, n, "inf") || word_matches(s, a, n, "infinity") || word_matches(s, a, n, "nan")
        || number_matches(s, a, n)
}

} // verus!
