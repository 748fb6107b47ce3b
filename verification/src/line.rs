//! The three kinds of line: `# HELP`, `# TYPE`, and a sample.

use vstd::prelude::*;
use crate::grammar::{chars_of, is_number, is_number_text, run_end, same_text, scan, CharClass};
use crate::text::{
    help_line, is_name, is_sample, lemma_help_written, lemma_no_help_line, lemma_no_sample_line,
    lemma_no_type_line, lemma_sample_written, lemma_type_written, no_help_line, no_sample_line,
    no_type_line, sample_line, type_line,
};

verus! {

/// What a `# TYPE` line may declare.
#[derive(Clone, Copy, Debug, PartialEq, Eq, Structural)]
pub enum MetricType {
    Counter,
    Gauge,
    Histogram,
    Summary,
}

/// The word that a `# TYPE` line declares a type by.
pub open spec fn type_word(t: MetricType) -> Seq<char> {
    match t {
        MetricType::Counter => "counter"@,
        MetricType::Gauge => "gauge"@,
        MetricType::Histogram => "histogram"@,
        MetricType::Summary => "summary"@,
    }
}

impl MetricType {
    /// The word that a `# TYPE` line declares this type by.
    pub fn word(self) -> (w: &'static str)
        ensures
            w@ == type_word(self),
    {
        match self {
            MetricType::Counter => "counter",
            MetricType::Gauge => "gauge",
            MetricType::Histogram => "histogram",
            MetricType::Summary => "summary",
        }
    }
}

/// Why a line was not taken.
#[derive(Clone, Copy, Debug, PartialEq, Eq, Structural)]
pub enum ParseError {
    /// The line does not have the shape asked for, or holds more than it.
    Malformed,
    /// A `# TYPE` line of the right shape names a type that is not known.
    UnknownType,
}

/// One `key="value"` pair of a sample.
#[derive(Clone, Debug, PartialEq, Eq)]
pub struct Label {
    pub key: String,
    pub value: String,
}

/// The characters of a label.
pub ghost struct LabelText {
    pub key: Seq<char>,
    pub value: Seq<char>,
}

impl View for Label {
    type V = LabelText;

    open spec fn view(&self) -> LabelText {
        LabelText { key: self.key@, value: self.value@ }
    }
}

impl DeepView for Label {
    type V = LabelText;

    open spec fn deep_view(&self) -> LabelText {
        self@
    }
}

/// One sample line, taken apart. The value is kept as it was written.
#[derive(Clone, Debug, PartialEq, Eq)]
pub struct Sample {
    pub name: String,
    pub labels: Vec<Label>,
    pub value: String,
}

/// The characters of a sample.
pub ghost struct SampleText {
    pub name: Seq<char>,
    pub labels: Seq<LabelText>,
    pub value: Seq<char>,
}

impl View for Sample {
    type V = SampleText;

    open spec fn view(&self) -> SampleText {
        SampleText { name: self.name@, labels: self.labels.deep_view(), value: self.value@ }
    }
}

/// True where `s` begins with `# `, the four letters given, and a space.
pub open spec fn tagged(s: Seq<char>, a: char, b: char, c: char, d: char) -> bool {
    &&& s.len() >= 7
    &&& s[0] == '#'
    &&& s[1] == ' '
    &&& s[2] == a
    &&& s[3] == b
    &&& s[4] == c
    &&& s[5] == d
    &&& s[6] == ' '
}

fn is_tagged(s: &Vec<char>, a: char, b: char, c: char, d: char) -> (r: bool)
    ensures
        r == tagged(s@, a, b, c, d),
{
    s.len() >= 7 && s[0] == '#' && s[1] == ' ' && s[2] == a && s[3] == b && s[4] == c && s[5]
        == d && s[6] == ' '
}

/// True for the line feed and the carriage return.
pub open spec fn line_break(c: char) -> bool {
    c == '\n' || c == '\r'
}

/// True where `s` holds neither a line feed nor a carriage return.
pub open spec fn single_line(s: Seq<char>) -> bool {
    forall|i: int| 0 <= i < s.len() ==> !line_break(#[trigger] s[i])
}

/// What a `# HELP` line says: the name and the help text, where `s` is
/// `# HELP `, a name, a space, and text up to the end of the line.
pub open spec fn help_of(s: Seq<char>) -> Option<(Seq<char>, Seq<char>)> {
    let end = run_end(s, 7, CharClass::Identifier);
    if tagged(s, 'H', 'E', 'L', 'P') && 7 < end < s.len() && s[end] == ' ' && single_line(
        s.subrange(end + 1, s.len() as int),
    ) {
        Some((s.subrange(7, end), s.subrange(end + 1, s.len() as int)))
    } else {
        None
    }
}

/// Takes a `# HELP` line apart into the name and the help text. A line is
/// taken exactly where it is `# HELP `, a name, a space, and a text without
/// line breaks.
pub fn parse_help(line: &str) -> (r: Result<(String, String), ParseError>)
    ensures
        match r {
            Ok((name, help)) => {
                &&& help_of(line@) == Some((name@, help@))
                &&& line@ == help_line(name@, help@)
                &&& is_name(name@)
                &&& single_line(help@)
            },
            Err(e) => e == ParseError::Malformed && help_of(line@) is None && no_help_line(line@),
        },
{
    proof {
        match help_of(line@) {
            Some((name, help)) => lemma_help_written(line@, name, help),
            None => lemma_no_help_line(line@),
        }
    }
    let s: Vec<char> = chars_of(line);
    let n: usize = s.len();
    if !is_tagged(&s, 'H', 'E', 'L', 'P') {
        return Err(ParseError::Malformed);
    }
    let end: usize = scan(&s, 7, CharClass::Identifier);
    if !(7 < end && end < n && s[end] == ' ') {
        return Err(ParseError::Malformed);
    }
    let mut i: usize = end + 1;
    while i < n
        invariant
            end + 1 <= i <= n,
            n == s@.len(),
            s@ == line@,
            end == run_end(s@, 7, CharClass::Identifier),
            forall|j: int| end + 1 <= j < i ==> !line_break(#[trigger] s@[j]),
        decreases n - i,
    {
        if s[i] == '\n' || s[i] == '\r' {
            proof {
                let rest = s@.subrange(end + 1, n as int);
                assert(line_break(rest[i - (end + 1)]));
            }
            return Err(ParseError::Malformed);
        }
        i = i + 1;
    }
    proof {
        let rest = s@.subrange(end + 1, n as int);
        assert forall|j: int| 0 <= j < rest.len() implies !line_break(#[trigger] rest[j]) by {
            assert(rest[j] == s@[end + 1 + j]);
        }
    }
    let name: String = line.substring_char(7, end).to_owned();
    let help: String = line.substring_char(end + 1, n).to_owned();
    Ok((name, help))
}

/// The type that a word names, if any.
pub open spec fn type_of_word(w: Seq<char>) -> Option<MetricType> {
    if w == "counter"@ {
        Some(MetricType::Counter)
    } else if w == "gauge"@ {
        Some(MetricType::Gauge)
    } else if w == "histogram"@ {
        Some(MetricType::Histogram)
    } else if w == "summary"@ {
        Some(MetricType::Summary)
    } else {
        None
    }
}

/// What a `# TYPE` line says: the name and the type, where `s` is `# TYPE `,
/// a name, a space, and a word of letters up to the end of the line. A word
/// that names no type is an error of its own.
pub open spec fn type_of(s: Seq<char>) -> Result<(Seq<char>, MetricType), ParseError> {
    let end = run_end(s, 7, CharClass::Identifier);
    if tagged(s, 'T', 'Y', 'P', 'E') && 7 < end < s.len() && s[end] == ' ' && end + 1 < s.len()
        && run_end(s, end + 1, CharClass::Letter) == s.len() {
        match type_of_word(s.subrange(end + 1, s.len() as int)) {
            Some(t) => Ok((s.subrange(7, end), t)),
            None => Err(ParseError::UnknownType),
        }
    } else {
        Err(ParseError::Malformed)
    }
}

/// Takes a `# TYPE` line apart into the name and the type. A line is taken
/// exactly where it is `# TYPE `, a name, a space, and the word of a type.
pub fn parse_type(line: &str) -> (r: Result<(String, MetricType), ParseError>)
    ensures
        match r {
            Ok((name, t)) => {
                &&& type_of(line@) == Ok::<(Seq<char>, MetricType), ParseError>((name@, t))
                &&& line@ == type_line(name@, t)
                &&& is_name(name@)
            },
            Err(e) => type_of(line@) == Err::<(Seq<char>, MetricType), ParseError>(e)
                && no_type_line(line@),
        },
{
    proof {
        match type_of(line@) {
            Ok((name, t)) => lemma_type_written(line@, name, t),
            Err(_) => lemma_no_type_line(line@),
        }
    }
    let s: Vec<char> = chars_of(line);
    let n: usize = s.len();
    if !is_tagged(&s, 'T', 'Y', 'P', 'E') {
        return Err(ParseError::Malformed);
    }
    let end: usize = scan(&s, 7, CharClass::Identifier);
    if !(7 < end && end < n && s[end] == ' ' && end + 1 < n) {
        return Err(ParseError::Malformed);
    }
    let stop: usize = scan(&s, end + 1, CharClass::Letter);
    if stop != n {
        return Err(ParseError::Malformed);
    }
    let word: &str = line.substring_char(end + 1, n);
    let t: MetricType = if same_text(word, "counter") {
        MetricType::Counter
    } else if same_text(word, "gauge") {
        MetricType::Gauge
    } else if same_text(word, "histogram") {
        MetricType::Histogram
    } else if same_text(word, "summary") {
        MetricType::Summary
    } else {
        return Err(ParseError::UnknownType);
    };
    let name: String = line.substring_char(7, end).to_owned();
    Ok((name, t))
}

/// The label that starts at `at`, and the index behind it: a name, `=`, and
/// a value between double quotes that holds no double quote.
pub open spec fn label_at(s: Seq<char>, at: int) -> Option<(LabelText, int)> {
    let k = run_end(s, at, CharClass::Identifier);
    let v = run_end(s, k + 2, CharClass::Unquoted);
    if at < k && k + 1 < s.len() && s[k] == '=' && s[k + 1] == '"' && v < s.len() {
        Some((LabelText { key: s.subrange(at, k), value: s.subrange(k + 2, v) }, v + 1))
    } else {
        None
    }
}

/// The labels that start at `at`, one or more with a comma between each two,
/// and the index behind the last.
pub open spec fn labels_at(s: Seq<char>, at: int) -> Option<(Seq<LabelText>, int)>
    decreases s.len() - at,
{
    match label_at(s, at) {
        None => None,
        Some((label, next)) => {
            if at < next < s.len() && s[next] == ',' {
                match labels_at(s, next + 1) {
                    None => None,
                    Some((more, end)) => Some((seq![label] + more, end)),
                }
            } else {
                Some((seq![label], next))
            }
        },
    }
}

/// The labels of the sample whose name ends at `at`, and the index behind
/// them: none, or a block in braces that holds at least one label.
pub open spec fn label_block_at(s: Seq<char>, at: int) -> Option<(Seq<LabelText>, int)> {
    if 0 <= at < s.len() && s[at] == '{' {
        match labels_at(s, at + 1) {
            None => None,
            Some((labels, end)) => {
                if 0 <= end < s.len() && s[end] == '}' {
                    Some((labels, end + 1))
                } else {
                    None
                }
            },
        }
    } else {
        Some((Seq::empty(), at))
    }
}

/// What a sample line says, where `s` is a name, an optional block of labels,
/// a space, and a number up to the end of the line.
pub open spec fn sample_of(s: Seq<char>) -> Option<SampleText> {
    let n = run_end(s, 0, CharClass::Identifier);
    if n <= 0 {
        None
    } else {
        match label_block_at(s, n) {
            None => None,
            Some((labels, sp)) => {
                if 0 <= sp < s.len() && s[sp] == ' ' && is_number(
                    s.subrange(sp + 1, s.len() as int),
                ) {
                    Some(
                        SampleText {
                            name: s.subrange(0, n),
                            labels,
                            value: s.subrange(sp + 1, s.len() as int),
                        },
                    )
                } else {
                    None
                }
            },
        }
    }
}

fn parse_label(line: &str, s: &Vec<char>, at: usize) -> (r: Option<(Label, usize)>)
    requires
        s@ == line@,
        at <= s.len(),
    ensures
        match r {
            Some((label, next)) => label_at(s@, at as int) == Some((label@, next as int)) && at
                < next <= s.len(),
            None => label_at(s@, at as int) is None,
        },
{
    let n: usize = s.len();
    let k: usize = scan(s, at, CharClass::Identifier);
    if !(at < k && k < n && n - k > 1 && s[k] == '=' && s[k + 1] == '"') {
        return None;
    }
    let v: usize = scan(s, k + 2, CharClass::Unquoted);
    if v >= n {
        return None;
    }
    let key: String = line.substring_char(at, k).to_owned();
    let value: String = line.substring_char(k + 2, v).to_owned();
    Some((Label { key, value }, v + 1))
}

fn parse_labels(line: &str, s: &Vec<char>, at: usize) -> (r: Option<(Vec<Label>, usize)>)
    requires
        s@ == line@,
        at <= s.len(),
    ensures
        match r {
            Some((labels, end)) => labels_at(s@, at as int) == Some(
                (labels.deep_view(), end as int),
            ) && end <= s.len(),
            None => labels_at(s@, at as int) is None,
        },
{
    let n: usize = s.len();
    let mut labels: Vec<Label> = Vec::new();
    let mut i: usize = at;
    loop
        invariant
            s@ == line@,
            n == s.len(),
            at <= i <= n,
            labels_at(s@, at as int) == match labels_at(s@, i as int) {
                None => None::<(Seq<LabelText>, int)>,
                Some((more, end)) => Some((labels.deep_view() + more, end)),
            },
        decreases n - i,
    {
        match parse_label(line, s, i) {
            None => {
                return None;
            },
            Some((label, next)) => {
                let ghost before = labels.deep_view();
                let ghost one = label@;
                labels.push(label);
                proof {
                    assert(labels.deep_view() =~= before + seq![one]);
                }
                if next < n && s[next] == ',' {
                    proof {
                        match labels_at(s@, next + 1) {
                            None => {},
                            Some((more, end)) => {
                                assert(before + (seq![one] + more) =~= (before + seq![one])
                                    + more);
                            },
                        }
                    }
                    i = next + 1;
                } else {
                    proof {
                        assert(before + seq![one] =~= labels.deep_view());
                    }
                    return Some((labels, next));
                }
            },
        }
    }
}

/// Takes a sample line apart into the name, the labels in the order written,
/// and the value as written. A line is taken exactly where it is a name, an
/// optional block of one or more labels, a space, and a number.
pub fn parse_metric(line: &str) -> (r: Result<Sample, ParseError>)
    ensures
        match r {
            Ok(sample) => {
                &&& sample_of(line@) == Some(sample@)
                &&& line@ == sample_line(sample@)
                &&& is_sample(sample@)
            },
            Err(e) => e == ParseError::Malformed && sample_of(line@) is None && no_sample_line(
                line@,
            ),
        },
{
    proof {
        match sample_of(line@) {
            Some(sample) => lemma_sample_written(line@, sample),
            None => lemma_no_sample_line(line@),
        }
    }
    let s: Vec<char> = chars_of(line);
    let n: usize = s.len();
    let name_end: usize = scan(&s, 0, CharClass::Identifier);
    if name_end == 0 {
        return Err(ParseError::Malformed);
    }
    let mut labels: Vec<Label> = Vec::new();
    let mut sp: usize = name_end;
    if name_end < n && s[name_end] == '{' {
        match parse_labels(line, &s, name_end + 1) {
            None => {
                return Err(ParseError::Malformed);
            },
            Some((found, end)) => {
                if !(end < n && s[end] == '}') {
                    return Err(ParseError::Malformed);
                }
                labels = found;
                sp = end + 1;
            },
        }
    } else {
        proof {
            assert(labels.deep_view() =~= Seq::<LabelText>::empty());
        }
    }
    if !(sp < n && s[sp] == ' ') {
        return Err(ParseError::Malformed);
    }
    let value: &str = line.substring_char(sp + 1, n);
    if !is_number_text(value) {
        return Err(ParseError::Malformed);
    }
    Ok(Sample { name: line.substring_char(0, name_end).to_owned(), labels, value: value.to_owned() })
}

} // verus!
