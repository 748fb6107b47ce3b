//! Character classes and the scanners that the line grammar is built from.

use vstd::prelude::*;

verus! {

/// True for the characters of a metric or label name: ASCII letters, ASCII
/// digits and `_`.
pub open spec fn identifier_char(c: char) -> bool {
    ('a' <= c && c <= 'z') || ('A' <= c && c <= 'Z') || ('0' <= c && c <= '9') || c == '_'
}

/// Tells whether `c` may stand in a metric or label name.
pub fn is_metricname(c: char) -> (r: bool)
    ensures
        r == identifier_char(c),
{
    ('a' <= c && c <= 'z') || ('A' <= c && c <= 'Z') || ('0' <= c && c <= '9') || c == '_'
}

/// A class of characters that a scanner runs over.
#[derive(Clone, Copy, Debug)]
pub enum CharClass {
    /// Letters, digits and `_`.
    Identifier,
    /// ASCII letters.
    Letter,
    /// ASCII decimal digits.
    Digit,
    /// Everything but the double quote.
    Unquoted,
}

impl CharClass {
    /// Membership of `c` in the class.
    pub open spec fn holds(self, c: char) -> bool {
        match self {
            CharClass::Identifier => identifier_char(c),
            CharClass::Letter => ('a' <= c && c <= 'z') || ('A' <= c && c <= 'Z'),
            CharClass::Digit => '0' <= c && c <= '9',
            CharClass::Unquoted => c != '"',
        }
    }

    /// Decides membership of `c` in the class.
    pub fn test(self, c: char) -> (r: bool)
        ensures
            r == self.holds(c),
    {
        match self {
            CharClass::Identifier => is_metricname(c),
            CharClass::Letter => ('a' <= c && c <= 'z') || ('A' <= c && c <= 'Z'),
            CharClass::Digit => '0' <= c && c <= '9',
            CharClass::Unquoted => c != '"',
        }
    }
}

/// The index at which the longest run of `class` characters that starts at
/// `from` ends: the first index at or after `from` whose character is outside
/// the class, or the length of `s`.
pub open spec fn run_end(s: Seq<char>, from: int, class: CharClass) -> int
    decreases s.len() - from,
{
    if 0 <= from < s.len() && class.holds(s[from]) {
        run_end(s, from + 1, class)
    } else {
        from
    }
}

/// A run lies within the text, holds only characters of its class, and is
/// followed by a character outside the class or by the end of the text.
pub proof fn lemma_run_end(s: Seq<char>, from: int, class: CharClass)
    requires
        0 <= from <= s.len(),
    ensures
        from <= run_end(s, from, class) <= s.len(),
        forall|i: int| from <= i < run_end(s, from, class) ==> class.holds(#[trigger] s[i]),
        run_end(s, from, class) < s.len() ==> !class.holds(s[run_end(s, from, class)]),
    decreases s.len() - from,
{
    if from < s.len() && class.holds(s[from]) {
        lemma_run_end(s, from + 1, class);
    }
}

/// A stretch of class characters that stops at a character outside the class
/// (or at the end of the text) is the run that starts where it starts.
pub proof fn lemma_run_end_unique(s: Seq<char>, from: int, end: int, class: CharClass)
    requires
        0 <= from <= end <= s.len(),
        forall|i: int| from <= i < end ==> class.holds(#[trigger] s[i]),
        end < s.len() ==> !class.holds(s[end]),
    ensures
        run_end(s, from, class) == end,
    decreases end - from,
{
    if from < end {
        lemma_run_end_unique(s, from + 1, end, class);
    }
}

/// Finds the end of the run of `class` characters that starts at `from`.
pub fn scan(s: &Vec<char>, from: usize, class: CharClass) -> (end: usize)
    requires
        from <= s.len(),
    ensures
        end == run_end(s@, from as int, class),
        from <= end <= s.len(),
{
    let mut i: usize = from;
    while i < s.len() && class.test(s[i])
        invariant
            from <= i <= s.len(),
            run_end(s@, from as int, class) == run_end(s@, i as int, class),
        decreases s.len() - i,
    {
        i = i + 1;
    }
    i
}

/// The characters of `text`, in order.
pub fn chars_of(text: &str) -> (chars: Vec<char>)
    ensures
        chars@ == text@,
{
    let n: usize = text.unicode_len();
    let mut chars: Vec<char> = Vec::new();
    let mut i: usize = 0;
    while i < n
        invariant
            n == text@.len(),
            i <= n,
            chars@ == text@.subrange(0, i as int),
        decreases n - i,
    {
        let c: char = text.get_char(i);
        chars.push(c);
        proof {
            assert(chars@ =~= text@.subrange(0, i + 1));
        }
        i = i + 1;
    }
    proof {
        assert(chars@ =~= text@);
    }
    chars
}

/// Tells whether two texts hold the same characters.
pub fn same_text(a: &str, b: &str) -> (r: bool)
    ensures
        r == (a@ == b@),
{
    let x: String = a.to_owned();
    let y: String = b.to_owned();
    x == y
}

/// True where the exponent of a number starts at `at` and ends the text:
/// `e` or `E`, an optional sign, and at least one digit.
pub open spec fn exponent_at(s: Seq<char>, at: int) -> bool {
    let digits = if at + 1 < s.len() && (s[at + 1] == '+' || s[at + 1] == '-') {
        at + 2
    } else {
        at + 1
    };
    &&& 0 <= at < s.len()
    &&& (s[at] == 'e' || s[at] == 'E')
    &&& run_end(s, digits, CharClass::Digit) > digits
    &&& run_end(s, digits, CharClass::Digit) == s.len()
}

/// True where `s` is a number in decimal or exponential notation and nothing
/// else: an optional sign; digits with an optional `.` and further digits, or
/// a `.` with digits; and an optional exponent.
pub open spec fn is_number(s: Seq<char>) -> bool {
    let whole = if 0 < s.len() && (s[0] == '+' || s[0] == '-') {
        1
    } else {
        0int
    };
    let point = run_end(s, whole, CharClass::Digit);
    let rest = if point < s.len() && s[point] == '.' {
        run_end(s, point + 1, CharClass::Digit)
    } else {
        point
    };
    &&& (point > whole || rest > point + 1)
    &&& (rest == s.len() || exponent_at(s, rest))
}

/// Decides whether `text` is a number in decimal or exponential notation.
pub fn is_number_text(text: &str) -> (r: bool)
    ensures
        r == is_number(text@),
{
    let s: Vec<char> = chars_of(text);
    let n: usize = s.len();
    let whole: usize = if 0 < n && (s[0] == '+' || s[0] == '-') {
        1
    } else {
        0
    };
    let point: usize = scan(&s, whole, CharClass::Digit);
    let rest: usize = if point < n && s[point] == '.' {
        scan(&s, point + 1, CharClass::Digit)
    } else {
        point
    };
    if !(point > whole || rest > point + 1) {
        return false;
    }
    if rest == n {
        return true;
    }
    if !(s[rest] == 'e' || s[rest] == 'E') {
        return false;
    }
    let digits: usize = if rest + 1 < n && (s[rest + 1] == '+' || s[rest + 1] == '-') {
        rest + 2
    } else {
        rest + 1
    };
    let end: usize = scan(&s, digits, CharClass::Digit);
    end > digits && end == n
}

} // verus!
