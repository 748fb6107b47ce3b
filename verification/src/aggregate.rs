//! The two ways in which the samples of a family are gathered: one by one
//! (gauges and counters), or in groups (histograms and summaries).

use vstd::prelude::*;
use crate::error::Fault;
use crate::grammar::same_text;
use crate::line::{Label, LabelText, Sample, SampleText};
use crate::render::{label_spans, plain, push_labels, span, Role, Span, SpanText};

verus! {

/// A sample of a gauge or counter, as it is shown: its labels and its value.
#[derive(Debug, PartialEq, Eq)]
pub struct Reading {
    pub labels: Vec<Label>,
    pub value: String,
}

/// The characters of a reading.
pub ghost struct ReadingText {
    pub labels: Seq<LabelText>,
    pub value: Seq<char>,
}

impl View for Reading {
    type V = ReadingText;

    open spec fn view(&self) -> ReadingText {
        ReadingText { labels: self.labels.deep_view(), value: self.value@ }
    }
}

impl DeepView for Reading {
    type V = ReadingText;

    open spec fn deep_view(&self) -> ReadingText {
        self@
    }
}

/// The reading that a sample gives: its labels as written, and its value.
pub open spec fn reading_of(sample: SampleText) -> ReadingText {
    ReadingText { labels: sample.labels, value: sample.value }
}

/// The row of a reading: the value, a tab, and the labels.
pub open spec fn reading_row(reading: ReadingText) -> Seq<SpanText> {
    seq![plain("  "@), SpanText { role: Role::Value, text: reading.value }, plain("\t"@)]
        + label_spans(reading.labels)
}

/// The rows of a list of readings, one for each, in the order of the list.
pub open spec fn reading_rows(readings: Seq<ReadingText>) -> Seq<Seq<SpanText>> {
    Seq::new(readings.len(), |i: int| reading_row(readings[i]))
}

/// Gathers the samples of a gauge or counter: every sample is kept by
/// itself, in the order in which it came.
#[derive(Debug, PartialEq, Eq)]
pub struct GaugeCounterParser {
    pub readings: Vec<Reading>,
}

impl View for GaugeCounterParser {
    type V = Seq<ReadingText>;

    open spec fn view(&self) -> Seq<ReadingText> {
        self.readings.deep_view()
    }
}

impl GaugeCounterParser {
    /// A parser that has seen no sample.
    pub fn new() -> (r: Self)
        ensures
            r@ == Seq::<ReadingText>::empty(),
    {
        let r = GaugeCounterParser { readings: Vec::new() };
        proof {
            assert(r@ =~= Seq::<ReadingText>::empty());
        }
        r
    }

    /// Takes one sample in, behind those taken before. The result says
    /// whether a group is complete, which for these families is never.
    pub fn parse_line(&mut self, sample: Sample) -> (complete: bool)
        ensures
            final(self)@ == old(self)@.push(reading_of(sample@)),
            !complete,
    {
        let reading = Reading { labels: sample.labels, value: sample.value };
        self.readings.push(reading);
        proof {
            assert(self@ =~= old(self)@.push(reading_of(sample@)));
        }
        false
    }

    /// The rows of all samples taken in, in their order.
    pub fn render(&self) -> (rows: Vec<Vec<Span>>)
        ensures
            rows.deep_view() == reading_rows(self@),
    {
        let mut rows: Vec<Vec<Span>> = Vec::new();
        let mut i: usize = 0;
        while i < self.readings.len()
            invariant
                i <= self.readings.len(),
                rows.deep_view() == reading_rows(self@.take(i as int)),
            decreases self.readings.len() - i,
        {
            let reading = &self.readings[i];
            let mut row: Vec<Span> = Vec::new();
            row.push(span(Role::Plain, "  "));
            row.push(span(Role::Value, reading.value.as_str()));
            row.push(span(Role::Plain, "\t"));
            push_labels(&mut row, &reading.labels);
            let ghost before = rows.deep_view();
            proof {
                assert(row.deep_view() =~= reading_row(reading@));
            }
            rows.push(row);
            proof {
                assert(self@[i as int] == reading@);
                assert(rows.deep_view() =~= before.push(reading_row(reading@)));
                assert(rows.deep_view() =~= reading_rows(self@.take(i + 1)));
            }
            i = i + 1;
        }
        proof {
            assert(self@.take(self.readings.len() as int) =~= self@);
        }
        rows
    }
}

/// A bound of a histogram or a quantile of a summary, with its value.
#[derive(Debug, PartialEq, Eq)]
pub struct Bucket {
    pub bound: String,
    pub value: String,
}

/// The characters of a bucket.
pub ghost struct BucketText {
    pub bound: Seq<char>,
    pub value: Seq<char>,
}

impl View for Bucket {
    type V = BucketText;

    open spec fn view(&self) -> BucketText {
        BucketText { bound: self.bound@, value: self.value@ }
    }
}

impl DeepView for Bucket {
    type V = BucketText;

    open spec fn deep_view(&self) -> BucketText {
        self@
    }
}

/// True for the keys that tell the samples of one group apart: `le` and
/// `quantile`.
pub open spec fn discriminator(key: Seq<char>) -> bool {
    key == "le"@ || key == "quantile"@
}

/// Decides whether `key` tells the samples of one group apart.
pub fn is_discriminator(key: &str) -> (r: bool)
    ensures
        r == discriminator(key@),
{
    same_text(key, "le") || same_text(key, "quantile")
}

/// The labels whose key is no discriminator, in their order.
pub open spec fn plain_labels(labels: Seq<LabelText>) -> Seq<LabelText>
    decreases labels.len(),
{
    if labels.len() == 0 {
        Seq::empty()
    } else if discriminator(labels.last().key) {
        plain_labels(labels.drop_last())
    } else {
        plain_labels(labels.drop_last()).push(labels.last())
    }
}

/// For each label under `key`, in their order, a bucket of the label's value
/// and `value`.
pub open spec fn picks(labels: Seq<LabelText>, key: Seq<char>, value: Seq<char>) -> Seq<
    BucketText,
>
    decreases labels.len(),
{
    if labels.len() == 0 {
        Seq::empty()
    } else if labels.last().key == key {
        picks(labels.drop_last(), key, value).push(
            BucketText { bound: labels.last().value, value },
        )
    } else {
        picks(labels.drop_last(), key, value)
    }
}

/// The labels that make a group what it is: those whose key is no
/// discriminator, without regard to order or repetition.
pub open spec fn group_key(labels: Seq<LabelText>) -> Set<LabelText> {
    Set::new(|l: LabelText| labels.contains(l) && !discriminator(l.key))
}

/// True where every label of `a` whose key is no discriminator is in `b`.
pub open spec fn covered(a: Seq<LabelText>, b: Seq<LabelText>) -> bool {
    forall|i: int| 0 <= i < a.len() ==> discriminator(#[trigger] a[i].key) || b.contains(a[i])
}

/// Two lists of labels make the same group exactly where each covers the
/// other.
pub proof fn lemma_group_key(a: Seq<LabelText>, b: Seq<LabelText>)
    ensures
        (group_key(a) == group_key(b)) <==> (covered(a, b) && covered(b, a)),
{
    if covered(a, b) && covered(b, a) {
        assert forall|l: LabelText| group_key(a).contains(l) <==> group_key(b).contains(l) by {
            if a.contains(l) && !discriminator(l.key) {
                let i = choose|i: int| 0 <= i < a.len() && a[i] == l;
                assert(discriminator(a[i].key) || b.contains(a[i]));
            }
            if b.contains(l) && !discriminator(l.key) {
                let i = choose|i: int| 0 <= i < b.len() && b[i] == l;
                assert(discriminator(b[i].key) || a.contains(b[i]));
            }
        }
        assert(group_key(a) =~= group_key(b));
    }
    if group_key(a) == group_key(b) {
        assert forall|i: int| 0 <= i < a.len() implies discriminator(#[trigger] a[i].key)
            || b.contains(a[i]) by {
            if !discriminator(a[i].key) {
                assert(a.contains(a[i]));
                assert(group_key(a).contains(a[i]));
                assert(group_key(b).contains(a[i]));
            }
        }
        assert forall|i: int| 0 <= i < b.len() implies discriminator(#[trigger] b[i].key)
            || a.contains(b[i]) by {
            if !discriminator(b[i].key) {
                assert(b.contains(b[i]));
                assert(group_key(b).contains(b[i]));
                assert(group_key(a).contains(b[i]));
            }
        }
    }
}

/// Tells whether `label` occurs in `labels`.
pub fn has_label(labels: &Vec<Label>, label: &Label) -> (r: bool)
    ensures
        r == labels.deep_view().contains(label@),
{
    let mut i: usize = 0;
    while i < labels.len()
        invariant
            i <= labels.len(),
            forall|j: int| 0 <= j < i ==> labels.deep_view()[j] != label@,
        decreases labels.len() - i,
    {
        if labels[i].key == label.key && labels[i].value == label.value {
            proof {
                assert(labels.deep_view()[i as int] == label@);
            }
            return true;
        }
        i = i + 1;
    }
    false
}

fn is_covered(a: &Vec<Label>, b: &Vec<Label>) -> (r: bool)
    ensures
        r == covered(a.deep_view(), b.deep_view()),
{
    let mut i: usize = 0;
    while i < a.len()
        invariant
            i <= a.len(),
            forall|j: int|
                0 <= j < i ==> discriminator(#[trigger] a.deep_view()[j].key)
                    || b.deep_view().contains(a.deep_view()[j]),
        decreases a.len() - i,
    {
        if !is_discriminator(a[i].key.as_str()) && !has_label(b, &a[i]) {
            proof {
                let x = a.deep_view()[i as int];
                assert(x == a@[i as int]@);
                assert(!discriminator(x.key) && !b.deep_view().contains(x));
            }
            return false;
        }
        i = i + 1;
    }
    true
}

/// Tells whether two lists of labels make the same group: whether they hold
/// the same labels once the discriminators are left out, in whatever order.
pub fn same_group(a: &Vec<Label>, b: &Vec<Label>) -> (r: bool)
    ensures
        r == (group_key(a.deep_view()) == group_key(b.deep_view())),
{
    proof {
        lemma_group_key(a.deep_view(), b.deep_view());
    }
    is_covered(a, b) && is_covered(b, a)
}

/// The labels of `labels` whose key is no discriminator, in their order.
pub fn strip_discriminators(labels: &Vec<Label>) -> (kept: Vec<Label>)
    ensures
        kept.deep_view() == plain_labels(labels.deep_view()),
{
    let mut kept: Vec<Label> = Vec::new();
    let mut i: usize = 0;
    proof {
        assert(labels.deep_view().take(0) =~= Seq::<LabelText>::empty());
        assert(kept.deep_view() =~= plain_labels(labels.deep_view().take(0)));
    }
    while i < labels.len()
        invariant
            i <= labels.len(),
            kept.deep_view() == plain_labels(labels.deep_view().take(i as int)),
        decreases labels.len() - i,
    {
        let ghost before = kept.deep_view();
        proof {
            let all = labels.deep_view();
            assert(all.take(i + 1).drop_last() =~= all.take(i as int));
            assert(all.take(i + 1).last() == labels@[i as int]@);
        }
        if !is_discriminator(labels[i].key.as_str()) {
            let label = Label { key: labels[i].key.clone(), value: labels[i].value.clone() };
            kept.push(label);
            proof {
                assert(kept.deep_view() =~= before.push(labels@[i as int]@));
            }
        }
        i = i + 1;
    }
    proof {
        assert(labels.deep_view().take(labels.len() as int) =~= labels.deep_view());
    }
    kept
}

/// How the name of a sample stands to the name of its family.
#[derive(Clone, Copy, Debug, PartialEq, Eq, Structural)]
pub enum Shape {
    /// The family's own name: a quantile of a summary.
    Quantile,
    /// The name with `_bucket` behind it: a bucket of a histogram.
    Bucket,
    /// The name with `_sum` behind it.
    Sum,
    /// The name with `_count` behind it.
    Count,
}

/// The shape of the sample called `name` in the family called `family`. The
/// suffix has to follow the whole of the family's name.
pub open spec fn shape(family: Seq<char>, name: Seq<char>) -> Option<Shape> {
    if name == family {
        Some(Shape::Quantile)
    } else if name == family + "_bucket"@ {
        Some(Shape::Bucket)
    } else if name == family + "_sum"@ {
        Some(Shape::Sum)
    } else if name == family + "_count"@ {
        Some(Shape::Count)
    } else {
        None
    }
}

fn is_suffixed(family: &str, suffix: &str, name: &str) -> (r: bool)
    ensures
        r == (name@ == family@ + suffix@),
{
    let mut whole: String = family.to_owned();
    whole.append(suffix);
    same_text(whole.as_str(), name)
}

/// Finds the shape of the sample called `name` in the family called `family`.
pub fn shape_of(family: &str, name: &str) -> (r: Option<Shape>)
    ensures
        r == shape(family@, name@),
{
    if same_text(name, family) {
        Some(Shape::Quantile)
    } else if is_suffixed(family, "_bucket", name) {
        Some(Shape::Bucket)
    } else if is_suffixed(family, "_sum", name) {
        Some(Shape::Sum)
    } else if is_suffixed(family, "_count", name) {
        Some(Shape::Count)
    } else {
        None
    }
}

/// Gathers the samples of one group of a histogram or summary: the buckets
/// or quantiles in the order in which they came, the sum, and the count.
#[derive(Debug, PartialEq, Eq)]
pub struct HistSummaryParser {
    pub metric_name: String,
    /// Whether any sample has been taken in.
    pub open: bool,
    /// The labels that the group is shown with.
    pub labels: Vec<Label>,
    pub bs: Vec<Bucket>,
    pub sum: String,
    pub count: String,
}

/// The characters of a group.
pub ghost struct GroupText {
    pub metric_name: Seq<char>,
    pub open: bool,
    pub labels: Seq<LabelText>,
    pub bs: Seq<BucketText>,
    pub sum: Seq<char>,
    pub count: Seq<char>,
}

impl View for HistSummaryParser {
    type V = GroupText;

    open spec fn view(&self) -> GroupText {
        GroupText {
            metric_name: self.metric_name@,
            open: self.open,
            labels: self.labels.deep_view(),
            bs: self.bs.deep_view(),
            sum: self.sum@,
            count: self.count@,
        }
    }
}

/// The group of the family called `metric_name` that has seen no sample: no
/// labels, no buckets, and `0` for the sum and the count.
pub open spec fn fresh_group(metric_name: Seq<char>) -> GroupText {
    GroupText {
        metric_name,
        open: false,
        labels: Seq::empty(),
        bs: Seq::empty(),
        sum: "0"@,
        count: "0"@,
    }
}

/// The group after one more sample, and whether that sample completes it.
///
/// A quantile or a bucket adds a pair for each `quantile` or `le` label. A
/// sum or a count replaces the one held. A count completes the group. The
/// group is shown with the labels of its first sample, or of its count, in
/// each case without the discriminators.
pub open spec fn absorb(group: GroupText, sample: SampleText) -> Result<(GroupText, bool), Fault> {
    match shape(group.metric_name, sample.name) {
        None => Err(Fault::UnknownSuffix),
        Some(sh) => {
            let labels = if !group.open || sh == Shape::Count {
                plain_labels(sample.labels)
            } else {
                group.labels
            };
            let bs = match sh {
                Shape::Quantile => group.bs + picks(sample.labels, "quantile"@, sample.value),
                Shape::Bucket => group.bs + picks(sample.labels, "le"@, sample.value),
                _ => group.bs,
            };
            Ok(
                (
                    GroupText {
                        metric_name: group.metric_name,
                        open: true,
                        labels,
                        bs,
                        sum: if sh == Shape::Sum {
                            sample.value
                        } else {
                            group.sum
                        },
                        count: if sh == Shape::Count {
                            sample.value
                        } else {
                            group.count
                        },
                    },
                    sh == Shape::Count,
                ),
            )
        },
    }
}

/// The spans of one bucket: the bound, a space, the value, a comma and a
/// space.
pub open spec fn bucket_spans_of(bucket: BucketText) -> Seq<SpanText> {
    seq![
        SpanText { role: Role::Bound, text: bucket.bound },
        plain(" "@),
        SpanText { role: Role::Tally, text: bucket.value },
        plain(", "@),
    ]
}

/// The spans of a list of buckets, in the order of the list.
pub open spec fn bucket_spans(bs: Seq<BucketText>) -> Seq<SpanText>
    decreases bs.len(),
{
    if bs.len() == 0 {
        Seq::empty()
    } else {
        bucket_spans(bs.drop_last()) + bucket_spans_of(bs.last())
    }
}

/// The row of a group: the sum, the count, the buckets in brackets, and the
/// labels.
pub open spec fn group_row(group: GroupText) -> Seq<SpanText> {
    seq![
        plain("  sum "@),
        SpanText { role: Role::Value, text: group.sum },
        plain(" count "@),
        SpanText { role: Role::Value, text: group.count },
        plain(" ("@),
    ] + bucket_spans(group.bs) + seq![plain(") "@)] + label_spans(group.labels)
}

impl HistSummaryParser {
    /// A parser for the family called `metric_name` that has seen no sample.
    pub fn new(metric_name: &str) -> (r: Self)
        ensures
            r@ == fresh_group(metric_name@),
    {
        let r = HistSummaryParser {
            metric_name: metric_name.to_owned(),
            open: false,
            labels: Vec::new(),
            bs: Vec::new(),
            sum: "0".to_owned(),
            count: "0".to_owned(),
        };
        proof {
            assert(r.labels.deep_view() =~= Seq::<LabelText>::empty());
            assert(r.bs.deep_view() =~= Seq::<BucketText>::empty());
        }
        r
    }

    /// Whether `labels` are those of the group that is being gathered: true
    /// while no sample has been taken in, and after that where the labels
    /// make the same group as those that the group is shown with.
    pub fn belongs(&self, labels: &Vec<Label>) -> (r: bool)
        ensures
            r == (!self@.open || group_key(self@.labels) == group_key(labels.deep_view())),
    {
        !self.open || same_group(&self.labels, labels)
    }

    fn pick(&mut self, labels: &Vec<Label>, key: &str, value: &String)
        ensures
            final(self)@ == (GroupText {
                bs: old(self)@.bs + picks(labels.deep_view(), key@, value@),
                ..old(self)@
            }),
    {
        let ghost start = self.bs.deep_view();
        let mut i: usize = 0;
        proof {
            assert(labels.deep_view().take(0) =~= Seq::<LabelText>::empty());
            assert(self.bs.deep_view() =~= start + picks(
                labels.deep_view().take(0),
                key@,
                value@,
            ));
        }
        while i < labels.len()
            invariant
                i <= labels.len(),
                self.bs.deep_view() == start + picks(
                    labels.deep_view().take(i as int),
                    key@,
                    value@,
                ),
                self@ == (GroupText { bs: self.bs.deep_view(), ..old(self)@ }),
            decreases labels.len() - i,
        {
            let ghost before = self.bs.deep_view();
            proof {
                let all = labels.deep_view();
                assert(all.take(i + 1).drop_last() =~= all.take(i as int));
                assert(all.take(i + 1).last() == labels@[i as int]@);
            }
            if same_text(labels[i].key.as_str(), key) {
                let bucket = Bucket { bound: labels[i].value.clone(), value: value.clone() };
                self.bs.push(bucket);
                proof {
                    assert(self.bs.deep_view() =~= before.push(
                        BucketText { bound: labels@[i as int]@.value, value: value@ },
                    ));
                    assert(self.bs.deep_view() =~= start + picks(
                        labels.deep_view().take(i + 1),
                        key@,
                        value@,
                    ));
                }
            }
            i = i + 1;
        }
        proof {
            assert(labels.deep_view().take(labels.len() as int) =~= labels.deep_view());
        }
    }

    /// Takes one sample in. The result says whether the sample completes the
    /// group, which a count does. A name of no known shape is a fault, and
    /// leaves the group as it was.
    pub fn parse_line(&mut self, sample: Sample) -> (r: Result<bool, Fault>)
        ensures
            match r {
                Ok(complete) => absorb(old(self)@, sample@) == Ok::<(GroupText, bool), Fault>(
                    (final(self)@, complete),
                ),
                Err(fault) => absorb(old(self)@, sample@) == Err::<(GroupText, bool), Fault>(
                    fault,
                ) && final(self)@ == old(self)@,
            },
    {
        let found = shape_of(self.metric_name.as_str(), sample.name.as_str());
        match found {
            None => Err(Fault::UnknownSuffix),
            Some(sh) => {
                if !self.open || sh == Shape::Count {
                    self.labels = strip_discriminators(&sample.labels);
                }
                self.open = true;
                match sh {
                    Shape::Quantile => {
                        self.pick(&sample.labels, "quantile", &sample.value);
                    },
                    Shape::Bucket => {
                        self.pick(&sample.labels, "le", &sample.value);
                    },
                    Shape::Sum => {
                        self.sum = sample.value;
                    },
                    Shape::Count => {
                        self.count = sample.value;
                    },
                }
                Ok(sh == Shape::Count)
            },
        }
    }

    /// The row of the group as it stands.
    pub fn render(&self) -> (row: Vec<Span>)
        ensures
            row.deep_view() == group_row(self@),
    {
        let mut row: Vec<Span> = Vec::new();
        row.push(span(Role::Plain, "  sum "));
        row.push(span(Role::Value, self.sum.as_str()));
        row.push(span(Role::Plain, " count "));
        row.push(span(Role::Value, self.count.as_str()));
        row.push(span(Role::Plain, " ("));
        let ghost head = row.deep_view();
        let mut i: usize = 0;
        proof {
            assert(self.bs.deep_view().take(0) =~= Seq::<BucketText>::empty());
            assert(row.deep_view() =~= head + bucket_spans(self.bs.deep_view().take(0)));
        }
        while i < self.bs.len()
            invariant
                i <= self.bs.len(),
                row.deep_view() == head + bucket_spans(self.bs.deep_view().take(i as int)),
            decreases self.bs.len() - i,
        {
            let ghost before = row.deep_view();
            row.push(span(Role::Bound, self.bs[i].bound.as_str()));
            row.push(span(Role::Plain, " "));
            row.push(span(Role::Tally, self.bs[i].value.as_str()));
            row.push(span(Role::Plain, ", "));
            proof {
                let all = self.bs.deep_view();
                assert(all.take(i + 1).drop_last() =~= all.take(i as int));
                assert(all.take(i + 1).last() == self.bs@[i as int]@);
                assert(row.deep_view() =~= before + bucket_spans_of(self.bs@[i as int]@));
                assert(row.deep_view() =~= head + bucket_spans(all.take(i + 1)));
            }
            i = i + 1;
        }
        proof {
            assert(self.bs.deep_view().take(self.bs.len() as int) =~= self.bs.deep_view());
        }
        let ghost body = row.deep_view();
        row.push(span(Role::Plain, ") "));
        proof {
            assert(row.deep_view() =~= body + seq![plain(") "@)]);
        }
        push_labels(&mut row, &self.labels);
        proof {
            assert(head =~= seq![
                plain("  sum "@),
                SpanText { role: Role::Value, text: self@.sum },
                plain(" count "@),
                SpanText { role: Role::Value, text: self@.count },
                plain(" ("@),
            ]);
        }
        row
    }
}

} // verus!
