//! Rows of display text, as spans that each carry the part they play.

use vstd::prelude::*;
use crate::line::{type_word, Label, LabelText, MetricType};

verus! {

/// The part that a span plays in a row. It decides how the span is styled.
#[derive(Clone, Copy, Debug, PartialEq, Eq, Structural)]
pub enum Role {
    /// Spacing and punctuation, and the help text.
    Plain,
    /// The name of a family.
    Name,
    /// The type of a family.
    Kind,
    /// A sample's value, a sum or a count: a number.
    Value,
    /// The upper bound of a bucket, or a quantile.
    Bound,
    /// The value that stands with a bound: a number.
    Tally,
    /// The key of a label.
    Key,
    /// The value of a label.
    Text,
}

/// A piece of a row.
#[derive(Debug, PartialEq, Eq)]
pub struct Span {
    pub role: Role,
    pub text: String,
}

/// The characters of a span, and its role.
pub ghost struct SpanText {
    pub role: Role,
    pub text: Seq<char>,
}

impl View for Span {
    type V = SpanText;

    open spec fn view(&self) -> SpanText {
        SpanText { role: self.role, text: self.text@ }
    }
}

impl DeepView for Span {
    type V = SpanText;

    open spec fn deep_view(&self) -> SpanText {
        self@
    }
}

/// A span of spacing or punctuation.
pub open spec fn plain(text: Seq<char>) -> SpanText {
    SpanText { role: Role::Plain, text }
}

/// The spans of one label: key, `=`, value, and a space.
pub open spec fn label_spans_of(label: LabelText) -> Seq<SpanText> {
    seq![
        SpanText { role: Role::Key, text: label.key },
        plain("="@),
        SpanText { role: Role::Text, text: label.value },
        plain(" "@),
    ]
}

/// The spans of a list of labels, in the order of the list.
pub open spec fn label_spans(labels: Seq<LabelText>) -> Seq<SpanText>
    decreases labels.len(),
{
    if labels.len() == 0 {
        Seq::empty()
    } else {
        label_spans(labels.drop_last()) + label_spans_of(labels.last())
    }
}

/// The header of a family: the name, the type, and the help text in quotes.
pub open spec fn header_row(name: Seq<char>, kind: MetricType, help: Seq<char>) -> Seq<SpanText> {
    seq![
        SpanText { role: Role::Name, text: name },
        plain(" "@),
        SpanText { role: Role::Kind, text: type_word(kind) },
        plain(" \""@),
        plain(help),
        plain("\""@),
    ]
}

/// Makes a span.
pub fn span(role: Role, text: &str) -> (r: Span)
    ensures
        r@ == (SpanText { role, text: text@ }),
{
    Span { role, text: text.to_owned() }
}

/// Appends the spans of `labels` to `row`.
pub fn push_labels(row: &mut Vec<Span>, labels: &Vec<Label>)
    ensures
        final(row).deep_view() == old(row).deep_view() + label_spans(labels.deep_view()),
{
    let ghost start = row.deep_view();
    let mut i: usize = 0;
    proof {
        assert(labels.deep_view().take(0) =~= Seq::<LabelText>::empty());
        assert(row.deep_view() =~= start + label_spans(labels.deep_view().take(0)));
    }
    while i < labels.len()
        invariant
            i <= labels.len(),
            row.deep_view() == start + label_spans(labels.deep_view().take(i as int)),
        decreases labels.len() - i,
    {
        let ghost before = row.deep_view();
        row.push(span(Role::Key, labels[i].key.as_str()));
        row.push(span(Role::Plain, "="));
        row.push(span(Role::Text, labels[i].value.as_str()));
        row.push(span(Role::Plain, " "));
        proof {
            let all = labels.deep_view();
            assert(all.take(i + 1).drop_last() =~= all.take(i as int));
            assert(all.take(i + 1).last() == labels@[i as int]@);
            assert(row.deep_view() =~= before + label_spans_of(labels@[i as int]@));
            assert(row.deep_view() =~= start + label_spans(all.take(i + 1)));
        }
        i = i + 1;
    }
    proof {
        assert(labels.deep_view().take(labels.len() as int) =~= labels.deep_view());
    }
}

/// Builds the header of a family.
pub fn render_header(name: &str, kind: MetricType, help: &str) -> (row: Vec<Span>)
    ensures
        row.deep_view() == header_row(name@, kind, help@),
{
    let mut row: Vec<Span> = Vec::new();
    row.push(span(Role::Name, name));
    row.push(span(Role::Plain, " "));
    row.push(span(Role::Kind, kind.word()));
    row.push(span(Role::Plain, " \""));
    row.push(span(Role::Plain, help));
    row.push(span(Role::Plain, "\""));
    proof {
        assert(row.deep_view() =~= header_row(name@, kind, help@));
    }
    row
}

} // verus!
