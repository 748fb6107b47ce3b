//! The course of a stream: family after family, each a `# HELP` line, a
//! `# TYPE` line, and samples up to the first line that is no sample.

use vstd::prelude::*;
use crate::aggregate::{
    absorb, fresh_group, group_key, group_row, reading_of, reading_rows, GaugeCounterParser,
    GroupText, HistSummaryParser, ReadingText,
};
use crate::error::Fault;
use crate::grammar::same_text;
use crate::line::{
    help_of, parse_help, parse_metric, parse_type, sample_of, type_of, MetricType, ParseError,
    Sample, SampleText,
};
use crate::render::{header_row, render_header, Span, SpanText};

verus! {

/// Where in a stream the reader stands.
#[derive(Debug)]
pub enum Machine {
    /// At the start of the stream: a `# HELP` line has to come.
    AwaitHelp,
    /// Behind a `# HELP` line: the `# TYPE` line of the same family has to
    /// come.
    AwaitType { name: String, help: String },
    /// Among the samples of a gauge or counter.
    Flat { name: String, parser: GaugeCounterParser },
    /// Among the samples of a histogram or summary.
    Grouped { parser: HistSummaryParser },
}

/// The characters of a machine's state.
pub ghost enum MachineText {
    AwaitHelp,
    AwaitType { name: Seq<char>, help: Seq<char> },
    Flat { name: Seq<char>, readings: Seq<ReadingText> },
    Grouped { group: GroupText },
}

impl View for Machine {
    type V = MachineText;

    open spec fn view(&self) -> MachineText {
        match self {
            Machine::AwaitHelp => MachineText::AwaitHelp,
            Machine::AwaitType { name, help } => MachineText::AwaitType {
                name: name@,
                help: help@,
            },
            Machine::Flat { name, parser } => MachineText::Flat { name: name@, readings: parser@ },
            Machine::Grouped { parser } => MachineText::Grouped { group: parser@ },
        }
    }
}

/// True where `s` begins with `p`.
pub open spec fn is_prefix(p: Seq<char>, s: Seq<char>) -> bool {
    p.len() <= s.len() && s.subrange(0, p.len() as int) == p
}

/// Tells whether `text` begins with `prefix`.
pub fn starts_with(text: &str, prefix: &str) -> (r: bool)
    ensures
        r == is_prefix(prefix@, text@),
{
    let n: usize = prefix.unicode_len();
    n <= text.unicode_len() && same_text(text.substring_char(0, n), prefix)
}

/// The state in which the samples of a family of type `kind` are awaited.
pub open spec fn opened(name: Seq<char>, kind: MetricType) -> MachineText {
    match kind {
        MetricType::Counter | MetricType::Gauge => MachineText::Flat {
            name,
            readings: Seq::empty(),
        },
        MetricType::Histogram | MetricType::Summary => MachineText::Grouped {
            group: fresh_group(name),
        },
    }
}

/// The rows that are still to be shown when a family ends: every reading of
/// a gauge or counter, or the group of a histogram or summary that has taken
/// a sample in and is not complete.
pub open spec fn closing_rows(m: MachineText) -> Seq<Seq<SpanText>> {
    match m {
        MachineText::Flat { name, readings } => reading_rows(readings),
        MachineText::Grouped { group } => if group.open {
            seq![group_row(group)]
        } else {
            Seq::empty()
        },
        _ => Seq::empty(),
    }
}

/// A line where a `# HELP` line has to stand, with the rows that the family
/// before it has left.
pub open spec fn begin(rows: Seq<Seq<SpanText>>, line: Seq<char>) -> Result<
    (MachineText, Seq<Seq<SpanText>>),
    Fault,
> {
    match help_of(line) {
        Some((name, help)) => Ok((MachineText::AwaitType { name, help }, rows)),
        None => Err(Fault::BadHelp),
    }
}

/// A line where the `# TYPE` line of the family called `name` has to stand.
/// Where it does, the family's header is shown.
pub open spec fn declare(name: Seq<char>, help: Seq<char>, line: Seq<char>) -> Result<
    (MachineText, Seq<Seq<SpanText>>),
    Fault,
> {
    match type_of(line) {
        Err(ParseError::Malformed) => Err(Fault::BadType),
        Err(ParseError::UnknownType) => Err(Fault::UnknownType),
        Ok((declared, kind)) => if declared == name {
            Ok((opened(name, kind), seq![header_row(name, kind, help)]))
        } else {
            Err(Fault::NameMismatch)
        },
    }
}

/// A sample of a histogram or summary. Where the group has taken samples in
/// and the new sample's labels make another group, the group is shown as it
/// stands and the sample begins a new one. A sample that completes its group
/// has the group shown and a new one begun.
pub open spec fn gather(group: GroupText, sample: SampleText) -> Result<
    (MachineText, Seq<Seq<SpanText>>),
    Fault,
> {
    let split = group.open && group_key(group.labels) != group_key(sample.labels);
    let base = if split {
        fresh_group(group.metric_name)
    } else {
        group
    };
    let left: Seq<Seq<SpanText>> = if split {
        seq![group_row(group)]
    } else {
        Seq::empty()
    };
    match absorb(base, sample) {
        Err(fault) => Err(fault),
        Ok((next, complete)) => if complete {
            Ok(
                (
                    MachineText::Grouped { group: fresh_group(group.metric_name) },
                    left.push(group_row(next)),
                ),
            )
        } else {
            Ok((MachineText::Grouped { group: next }, left))
        },
    }
}

/// The state after one more line, and the rows that the line has shown.
///
/// Among samples, a line that is no sample ends the family: what the family
/// has left is shown, and the line is taken as the `# HELP` line of the next.
pub open spec fn step(m: MachineText, line: Seq<char>) -> Result<
    (MachineText, Seq<Seq<SpanText>>),
    Fault,
> {
    match m {
        MachineText::AwaitHelp => begin(Seq::empty(), line),
        MachineText::AwaitType { name, help } => declare(name, help, line),
        MachineText::Flat { name, readings } => match sample_of(line) {
            None => begin(closing_rows(m), line),
            Some(sample) => if is_prefix(name, sample.name) {
                Ok(
                    (
                        MachineText::Flat { name, readings: readings.push(reading_of(sample)) },
                        Seq::empty(),
                    ),
                )
            } else {
                Err(Fault::ForeignSample)
            },
        },
        MachineText::Grouped { group } => match sample_of(line) {
            None => begin(closing_rows(m), line),
            Some(sample) => gather(group, sample),
        },
    }
}

/// The rows that the end of the stream shows. A stream may end only among
/// the samples of a family.
pub open spec fn end(m: MachineText) -> Result<Seq<Seq<SpanText>>, Fault> {
    match m {
        MachineText::AwaitHelp => Err(Fault::UnexpectedEnd),
        MachineText::AwaitType { name, help } => Err(Fault::UnexpectedEnd),
        _ => Ok(closing_rows(m)),
    }
}

/// The rows that the lines show from state `m` on, up to and with the end of
/// the stream; or the first fault.
pub open spec fn run(m: MachineText, lines: Seq<Seq<char>>) -> Result<Seq<Seq<SpanText>>, Fault>
    decreases lines.len(),
{
    if lines.len() == 0 {
        end(m)
    } else {
        match step(m, lines[0]) {
            Err(fault) => Err(fault),
            Ok((next, rows)) => match run(next, lines.drop_first()) {
                Err(fault) => Err(fault),
                Ok(more) => Ok(rows + more),
            },
        }
    }
}

fn begin_family(rows: Vec<Vec<Span>>, line: &str) -> (r: Result<(Machine, Vec<Vec<Span>>), Fault>)
    ensures
        match r {
            Ok((m, out)) => begin(rows.deep_view(), line@) == Ok::<
                (MachineText, Seq<Seq<SpanText>>),
                Fault,
            >((m@, out.deep_view())),
            Err(fault) => begin(rows.deep_view(), line@) == Err::<
                (MachineText, Seq<Seq<SpanText>>),
                Fault,
            >(fault),
        },
{
    match parse_help(line) {
        Ok((name, help)) => Ok((Machine::AwaitType { name, help }, rows)),
        Err(_) => Err(Fault::BadHelp),
    }
}

fn declare_family(name: String, help: String, line: &str) -> (r: Result<
    (Machine, Vec<Vec<Span>>),
    Fault,
>)
    ensures
        match r {
            Ok((m, out)) => declare(name@, help@, line@) == Ok::<
                (MachineText, Seq<Seq<SpanText>>),
                Fault,
            >((m@, out.deep_view())),
            Err(fault) => declare(name@, help@, line@) == Err::<
                (MachineText, Seq<Seq<SpanText>>),
                Fault,
            >(fault),
        },
{
    match parse_type(line) {
        Err(ParseError::Malformed) => Err(Fault::BadType),
        Err(ParseError::UnknownType) => Err(Fault::UnknownType),
        Ok((declared, kind)) => {
            if !same_text(declared.as_str(), name.as_str()) {
                return Err(Fault::NameMismatch);
            }
            let mut rows: Vec<Vec<Span>> = Vec::new();
            rows.push(render_header(name.as_str(), kind, help.as_str()));
            proof {
                assert(rows.deep_view() =~= seq![header_row(name@, kind, help@)]);
            }
            let m = match kind {
                MetricType::Counter | MetricType::Gauge => Machine::Flat {
                    name,
                    parser: GaugeCounterParser::new(),
                },
                MetricType::Histogram | MetricType::Summary => Machine::Grouped {
                    parser: HistSummaryParser::new(name.as_str()),
                },
            };
            Ok((m, rows))
        },
    }
}

fn gather_sample(parser: HistSummaryParser, sample: Sample) -> (r: Result<
    (Machine, Vec<Vec<Span>>),
    Fault,
>)
    ensures
        match r {
            Ok((m, out)) => gather(parser@, sample@) == Ok::<
                (MachineText, Seq<Seq<SpanText>>),
                Fault,
            >((m@, out.deep_view())),
            Err(fault) => gather(parser@, sample@) == Err::<
                (MachineText, Seq<Seq<SpanText>>),
                Fault,
            >(fault),
        },
{
    let mut rows: Vec<Vec<Span>> = Vec::new();
    let mut current = parser;
    proof {
        assert(rows.deep_view() =~= Seq::<Seq<SpanText>>::empty());
    }
    if !current.belongs(&sample.labels) {
        rows.push(current.render());
        proof {
            assert(rows.deep_view() =~= seq![group_row(parser@)]);
        }
        current = HistSummaryParser::new(current.metric_name.as_str());
    }
    let ghost left = rows.deep_view();
    let complete = current.parse_line(sample)?;
    if complete {
        rows.push(current.render());
        proof {
            assert(rows.deep_view() =~= left.push(group_row(current@)));
        }
        current = HistSummaryParser::new(current.metric_name.as_str());
    }
    Ok((Machine::Grouped { parser: current }, rows))
}

fn closing(m: &Machine) -> (rows: Vec<Vec<Span>>)
    ensures
        rows.deep_view() == closing_rows(m@),
{
    let mut rows: Vec<Vec<Span>> = Vec::new();
    proof {
        assert(rows.deep_view() =~= Seq::<Seq<SpanText>>::empty());
    }
    match m {
        Machine::Flat { name, parser } => {
            rows = parser.render();
        },
        Machine::Grouped { parser } => {
            if parser.open {
                rows.push(parser.render());
                proof {
                    assert(rows.deep_view() =~= seq![group_row(parser@)]);
                }
            }
        },
        _ => {},
    }
    rows
}

impl Machine {
    /// The state at the start of a stream.
    pub fn new() -> (m: Self)
        ensures
            m@ == MachineText::AwaitHelp,
    {
        Machine::AwaitHelp
    }

    /// Takes the next line of the stream. Gives the state behind it and the
    /// rows that are to be shown now, or the fault that ends the reading.
    pub fn step(self, line: &str) -> (r: Result<(Machine, Vec<Vec<Span>>), Fault>)
        ensures
            match r {
                Ok((m, rows)) => step(self@, line@) == Ok::<
                    (MachineText, Seq<Seq<SpanText>>),
                    Fault,
                >((m@, rows.deep_view())),
                Err(fault) => step(self@, line@) == Err::<
                    (MachineText, Seq<Seq<SpanText>>),
                    Fault,
                >(fault),
            },
    {
        match self {
            Machine::AwaitHelp => {
                let rows: Vec<Vec<Span>> = Vec::new();
                proof {
                    assert(rows.deep_view() =~= Seq::<Seq<SpanText>>::empty());
                }
                begin_family(rows, line)
            },
            Machine::AwaitType { name, help } => declare_family(name, help, line),
            Machine::Flat { name, parser } => {
                match parse_metric(line) {
                    Err(_) => {
                        let m = Machine::Flat { name, parser };
                        let rows = closing(&m);
                        begin_family(rows, line)
                    },
                    Ok(sample) => {
                        if !starts_with(sample.name.as_str(), name.as_str()) {
                            return Err(Fault::ForeignSample);
                        }
                        let mut parser = parser;
                        parser.parse_line(sample);
                        let rows: Vec<Vec<Span>> = Vec::new();
                        proof {
                            assert(rows.deep_view() =~= Seq::<Seq<SpanText>>::empty());
                        }
                        Ok((Machine::Flat { name, parser }, rows))
                    },
                }
            },
            Machine::Grouped { parser } => {
                match parse_metric(line) {
                    Err(_) => {
                        let m = Machine::Grouped { parser };
                        let rows = closing(&m);
                        begin_family(rows, line)
                    },
                    Ok(sample) => gather_sample(parser, sample),
                }
            },
        }
    }

    /// Takes the end of the stream. Gives the rows that are still to be
    /// shown, or a fault where the stream may not end.
    pub fn finish(self) -> (r: Result<Vec<Vec<Span>>, Fault>)
        ensures
            match r {
                Ok(rows) => end(self@) == Ok::<Seq<Seq<SpanText>>, Fault>(rows.deep_view()),
                Err(fault) => end(self@) == Err::<Seq<Seq<SpanText>>, Fault>(fault),
            },
    {
        match self {
            Machine::AwaitHelp => Err(Fault::UnexpectedEnd),
            Machine::AwaitType { name, help } => Err(Fault::UnexpectedEnd),
            _ => Ok(closing(&self)),
        }
    }
}

/// What a run gives behind rows that were shown before it.
pub open spec fn after(shown: Seq<Seq<SpanText>>, r: Result<Seq<Seq<SpanText>>, Fault>) -> Result<
    Seq<Seq<SpanText>>,
    Fault,
> {
    match r {
        Err(fault) => Err(fault),
        Ok(more) => Ok(shown + more),
    }
}

proof fn lemma_run_after(shown: Seq<Seq<SpanText>>, m: MachineText, lines: Seq<Seq<char>>)
    requires
        shown.len() == 0,
    ensures
        run(m, lines) == after(shown, run(m, lines)),
{
    match run(m, lines) {
        Err(fault) => {},
        Ok(more) => {
            assert(shown + more =~= more);
        },
    }
}

/// Reads a whole stream, given as its lines, and gives every row that it
/// shows, in order; or the first fault.
pub fn parse_metrics(lines: &Vec<String>) -> (r: Result<Vec<Vec<Span>>, Fault>)
    ensures
        match r {
            Ok(rows) => run(MachineText::AwaitHelp, lines.deep_view()) == Ok::<
                Seq<Seq<SpanText>>,
                Fault,
            >(rows.deep_view()),
            Err(fault) => run(MachineText::AwaitHelp, lines.deep_view()) == Err::<
                Seq<Seq<SpanText>>,
                Fault,
            >(fault),
        },
{
    let ghost all = lines.deep_view();
    let mut m = Machine::new();
    let mut shown: Vec<Vec<Span>> = Vec::new();
    let mut i: usize = 0;
    proof {
        assert(shown.deep_view() =~= Seq::<Seq<SpanText>>::empty());
        assert(all.skip(0) =~= all);
        lemma_run_after(Seq::empty(), m@, all);
    }
    while i < lines.len()
        invariant
            i <= lines.len(),
            all == lines.deep_view(),
            run(MachineText::AwaitHelp, all) == after(shown.deep_view(), run(m@, all.skip(i as int))),
        decreases lines.len() - i,
    {
        let ghost rest = all.skip(i as int);
        let ghost before = shown.deep_view();
        proof {
            assert(rest[0] == lines@[i as int]@);
            assert(rest.drop_first() =~= all.skip(i + 1));
        }
        match m.step(lines[i].as_str()) {
            Err(fault) => {
                return Err(fault);
            },
            Ok((next, rows)) => {
                let mut rows = rows;
                let ghost added = rows.deep_view();
                shown.append(&mut rows);
                proof {
                    assert(shown.deep_view() =~= before + added);
                    match run(next@, all.skip(i + 1)) {
                        Err(fault) => {},
                        Ok(more) => {
                            assert(before + (added + more) =~= (before + added) + more);
                        },
                    }
                }
                m = next;
            },
        }
        i = i + 1;
    }
    proof {
        assert(all.skip(i as int).len() == 0);
    }
    match m.finish() {
        Err(fault) => Err(fault),
        Ok(rows) => {
            let mut rows = rows;
            let ghost before = shown.deep_view();
            let ghost added = rows.deep_view();
            shown.append(&mut rows);
            proof {
                assert(shown.deep_view() =~= before + added);
            }
            Ok(shown)
        },
    }
}

} // verus!
