//! Styled text for the terminal, from rows of spans.

use vstd::prelude::*;
use crossterm::style::{Attribute, Color, Stylize};
use crate::render::{Role, Span};

verus! {

/// `text` in bold, as `crossterm`'s `Stylize::attribute` and the `Display`
/// of its `StyledContent` give it. Nothing is claimed of the result: the
/// escape sequences around the text depend on the environment.
#[verifier::external_body]
fn bold(text: &str) -> String {
    format!("{}", text.attribute(Attribute::Bold))
}

/// `text` in bold white, as `crossterm`'s `Stylize::with` and
/// `Stylize::attribute` and the `Display` of its `StyledContent` give it.
/// Nothing is claimed of the result.
#[verifier::external_body]
fn bold_white(text: &str) -> String {
    format!("{}", text.with(Color::White).attribute(Attribute::Bold))
}

/// `text` in dark grey, as `crossterm`'s `Stylize::with` and the `Display`
/// of its `StyledContent` give it. Nothing is claimed of the result.
#[verifier::external_body]
fn dark_grey(text: &str) -> String {
    format!("{}", text.with(Color::DarkGrey))
}

/// `text` in blue, as `crossterm`'s `Stylize::with` and the `Display` of its
/// `StyledContent` give it. Nothing is claimed of the result.
#[verifier::external_body]
fn blue(text: &str) -> String {
    format!("{}", text.with(Color::Blue))
}

/// `text` in green, as `crossterm`'s `Stylize::with` and the `Display` of
/// its `StyledContent` give it. Nothing is claimed of the result.
#[verifier::external_body]
fn green(text: &str) -> String {
    format!("{}", text.with(Color::Green))
}

/// True for the roles that are shown without any styling.
pub open spec fn unstyled(role: Role) -> bool {
    role == Role::Plain || role == Role::Tally
}

/// The text of a span, styled by its role: names in bold, types and bounds
/// in dark grey, values in bold white, label keys in blue, label values in
/// green. Plain spans and tallies come back as they are; what the styled
/// ones look like is the terminal library's matter.
pub fn paint(span: &Span) -> (text: String)
    ensures
        unstyled(span.role) ==> text@ == span.text@,
{
    match span.role {
        Role::Plain => span.text.clone(),
        Role::Tally => span.text.clone(),
        Role::Name => bold(span.text.as_str()),
        Role::Kind => dark_grey(span.text.as_str()),
        Role::Bound => dark_grey(span.text.as_str()),
        Role::Value => bold_white(span.text.as_str()),
        Role::Key => blue(span.text.as_str()),
        Role::Text => green(span.text.as_str()),
    }
}

/// The texts of a row's spans, each styled by its role, in the row's order.
pub fn paint_row(row: &Vec<Span>) -> (parts: Vec<String>)
    ensures
        parts.len() == row.len(),
        forall|i: int|
            0 <= i < row.len() && unstyled(row[i].role) ==> (#[trigger] parts[i])@ == row[i].text@,
{
    let mut parts: Vec<String> = Vec::new();
    let mut i: usize = 0;
    while i < row.len()
        invariant
            i <= row.len(),
            parts.len() == i,
            forall|j: int|
                0 <= j < i && unstyled(row[j].role) ==> (#[trigger] parts[j])@ == row[j].text@,
        decreases row.len() - i,
    {
        parts.push(paint(&row[i]));
        i = i + 1;
    }
    parts
}

/// The texts of `parts`, one behind the other.
pub open spec fn joined(parts: Seq<Seq<char>>) -> Seq<char>
    decreases parts.len(),
{
    if parts.len() == 0 {
        Seq::empty()
    } else {
        joined(parts.drop_last()) + parts.last()
    }
}

/// Puts the texts of `parts` one behind the other.
pub fn join(parts: &Vec<String>) -> (line: String)
    ensures
        line@ == joined(parts.deep_view()),
{
    let mut line: String = String::new();
    let mut i: usize = 0;
    proof {
        assert(parts.deep_view().take(0) =~= Seq::<Seq<char>>::empty());
    }
    while i < parts.len()
        invariant
            i <= parts.len(),
            line@ == joined(parts.deep_view().take(i as int)),
        decreases parts.len() - i,
    {
        line.append(parts[i].as_str());
        proof {
            let all = parts.deep_view();
            assert(all.take(i + 1).drop_last() =~= all.take(i as int));
            assert(all.take(i + 1).last() == parts@[i as int]@);
        }
        i = i + 1;
    }
    proof {
        assert(parts.deep_view().take(parts.len() as int) =~= parts.deep_view());
    }
    line
}

} // verus!
