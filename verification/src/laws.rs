//! What holds of every stream.

use vstd::prelude::*;
use crate::aggregate::{
    absorb, discriminator, fresh_group, group_key, group_row, picks, plain_labels, reading_of,
    reading_rows, shape, BucketText, GroupText, ReadingText, Shape,
};
use crate::error::Fault;
use crate::family::{after, closing_rows, gather, is_prefix, opened, run, step, MachineText};
use crate::line::{
    help_of, sample_of, single_line, type_of, LabelText, MetricType, ParseError, SampleText,
};
use crate::render::{header_row, SpanText};
use crate::text::{
    help_line, is_name, is_sample, lemma_help_read, lemma_sample_read, lemma_type_read,
    sample_line, type_line,
};

verus! {

/// The readings of a list of samples, in the order of the list.
pub open spec fn readings_of(samples: Seq<SampleText>) -> Seq<ReadingText> {
    Seq::new(samples.len(), |i: int| reading_of(samples[i]))
}

/// Among the samples of a gauge or counter, lines that are all samples of
/// the family, followed by the end of the stream, show one row for each
/// line, in the order of the lines, behind the rows of the samples that came
/// before. Each row holds the labels and the value that its line holds.
pub proof fn lemma_flat_rows(
    name: Seq<char>,
    readings: Seq<ReadingText>,
    samples: Seq<SampleText>,
    lines: Seq<Seq<char>>,
)
    requires
        lines.len() == samples.len(),
        forall|i: int|
            0 <= i < lines.len() ==> sample_of(#[trigger] lines[i]) == Some(samples[i])
                && is_prefix(name, samples[i].name),
    ensures
        run(MachineText::Flat { name, readings }, lines) == Ok::<Seq<Seq<SpanText>>, Fault>(
            reading_rows(readings + readings_of(samples)),
        ),
    decreases lines.len(),
{
    let m = MachineText::Flat { name, readings };
    if lines.len() == 0 {
        assert(readings + readings_of(samples) =~= readings);
    } else {
        let next = readings.push(reading_of(samples[0]));
        let rest = lines.drop_first();
        let others = samples.drop_first();
        assert(sample_of(lines[0]) == Some(samples[0]));
        assert forall|i: int| 0 <= i < rest.len() implies sample_of(#[trigger] rest[i]) == Some(
            others[i],
        ) && is_prefix(name, others[i].name) by {
            assert(rest[i] == lines[i + 1]);
            assert(others[i] == samples[i + 1]);
        }
        lemma_flat_rows(name, next, others, rest);
        assert(next + readings_of(others) =~= readings + readings_of(samples));
        let shown = reading_rows(readings + readings_of(samples));
        assert(Seq::<Seq<SpanText>>::empty() + shown =~= shown);
    }
}

/// A stream of one gauge or counter family shows the header and then one row
/// for each sample line, in the order of the lines, each with the labels and
/// the value of its line.
pub proof fn lemma_flat_family(
    name: Seq<char>,
    help: Seq<char>,
    kind: MetricType,
    samples: Seq<SampleText>,
    lines: Seq<Seq<char>>,
)
    requires
        lines.len() == samples.len() + 2,
        help_of(lines[0]) == Some((name, help)),
        type_of(lines[1]) == Ok::<(Seq<char>, MetricType), ParseError>((name, kind)),
        kind == MetricType::Counter || kind == MetricType::Gauge,
        forall|i: int|
            0 <= i < samples.len() ==> sample_of(#[trigger] lines[i + 2]) == Some(samples[i])
                && is_prefix(name, samples[i].name),
    ensures
        run(MachineText::AwaitHelp, lines) == Ok::<Seq<Seq<SpanText>>, Fault>(
            seq![header_row(name, kind, help)] + reading_rows(readings_of(samples)),
        ),
{
    let l1 = lines.drop_first();
    let l2 = l1.drop_first();
    assert(l1[0] == lines[1]);
    assert forall|i: int| 0 <= i < l2.len() implies sample_of(#[trigger] l2[i]) == Some(
        samples[i],
    ) && is_prefix(name, samples[i].name) by {
        assert(l2[i] == lines[i + 2]);
    }
    let none = Seq::<ReadingText>::empty();
    lemma_flat_rows(name, none, samples, l2);
    assert(none + readings_of(samples) =~= readings_of(samples));
    let body = reading_rows(readings_of(samples));
    let head = seq![header_row(name, kind, help)];
    assert(run(MachineText::Flat { name, readings: none }, l2) == Ok::<
        Seq<Seq<SpanText>>,
        Fault,
    >(body));
    assert(step(MachineText::AwaitType { name, help }, l1[0]) == Ok::<
        (MachineText, Seq<Seq<SpanText>>),
        Fault,
    >((MachineText::Flat { name, readings: none }, head)));
    assert(run(MachineText::AwaitType { name, help }, l1) == Ok::<Seq<Seq<SpanText>>, Fault>(
        head + body,
    ));
    assert(Seq::<Seq<SpanText>>::empty() + (head + body) =~= head + body);
}

/// A label is among the labels without discriminators exactly where it is
/// among the labels and its key is no discriminator.
pub proof fn lemma_plain_labels_contains(labels: Seq<LabelText>, label: LabelText)
    ensures
        plain_labels(labels).contains(label) <==> labels.contains(label) && !discriminator(
            label.key,
        ),
    decreases labels.len(),
{
    if labels.len() > 0 {
        let init = labels.drop_last();
        let last = labels.last();
        lemma_plain_labels_contains(init, label);
        if labels.contains(label) {
            let i = choose|i: int| 0 <= i < labels.len() && labels[i] == label;
            if i < init.len() {
                assert(init[i] == label);
            }
        }
        if init.contains(label) {
            let i = choose|i: int| 0 <= i < init.len() && init[i] == label;
            assert(labels[i] == label);
        }
        if discriminator(last.key) {
        } else {
            let kept = plain_labels(init).push(last);
            if kept.contains(label) {
                let i = choose|i: int| 0 <= i < kept.len() && kept[i] == label;
                if i < kept.len() - 1 {
                    assert(plain_labels(init)[i] == label);
                }
            }
            if plain_labels(init).contains(label) {
                let i = choose|i: int|
                    0 <= i < plain_labels(init).len() && plain_labels(init)[i] == label;
                assert(kept[i] == label);
            }
            if last == label {
                assert(kept[kept.len() - 1] == label);
                assert(labels[labels.len() - 1] == label);
            }
        }
    }
}

/// Leaving the discriminators out does not change the group that labels
/// make.
pub proof fn lemma_plain_labels_group(labels: Seq<LabelText>)
    ensures
        group_key(plain_labels(labels)) == group_key(labels),
{
    assert forall|l: LabelText|
        group_key(plain_labels(labels)).contains(l) <==> group_key(labels).contains(l) by {
        lemma_plain_labels_contains(labels, l);
    }
    assert(group_key(plain_labels(labels)) =~= group_key(labels));
}

/// The three suffixes name three different shapes, and none of them the
/// family's own name.
pub proof fn lemma_shapes(family: Seq<char>)
    ensures
        shape(family, family) == Some(Shape::Quantile),
        shape(family, family + "_bucket"@) == Some(Shape::Bucket),
        shape(family, family + "_sum"@) == Some(Shape::Sum),
        shape(family, family + "_count"@) == Some(Shape::Count),
{
    reveal_strlit("_bucket");
    reveal_strlit("_sum");
    reveal_strlit("_count");
    assert((family + "_bucket"@).len() == family.len() + 7);
    assert((family + "_sum"@).len() == family.len() + 4);
    assert((family + "_count"@).len() == family.len() + 6);
}

/// The buckets that a list of bucket samples gives, in the order of the
/// samples.
pub open spec fn all_picks(samples: Seq<SampleText>) -> Seq<BucketText>
    decreases samples.len(),
{
    if samples.len() == 0 {
        Seq::empty()
    } else {
        picks(samples[0].labels, "le"@, samples[0].value) + all_picks(samples.drop_first())
    }
}

/// The group that bucket samples, a sum and a count make when they come one
/// after the other into the group `group`.
pub open spec fn whole_group(
    group: GroupText,
    buckets: Seq<SampleText>,
    sum: SampleText,
    count: SampleText,
) -> GroupText {
    GroupText {
        metric_name: group.metric_name,
        open: true,
        labels: plain_labels(count.labels),
        bs: group.bs + all_picks(buckets),
        sum: sum.value,
        count: count.value,
    }
}

/// Among the samples of a histogram, bucket lines, a sum line and a count
/// line that follow each other and make one group, which is also the group
/// that is being gathered if one is, show exactly one row when the stream
/// ends behind them: that of the group with the buckets held before and
/// those of the lines, the sum and the count.
pub proof fn lemma_group_rows(
    group: GroupText,
    buckets: Seq<SampleText>,
    sum: SampleText,
    count: SampleText,
    lines: Seq<Seq<char>>,
)
    requires
        lines.len() == buckets.len() + 2,
        forall|i: int|
            0 <= i < buckets.len() ==> sample_of(#[trigger] lines[i]) == Some(buckets[i])
                && buckets[i].name == group.metric_name + "_bucket"@ && group_key(
                buckets[i].labels,
            ) == group_key(count.labels),
        sample_of(lines[buckets.len() as int]) == Some(sum),
        sum.name == group.metric_name + "_sum"@,
        group_key(sum.labels) == group_key(count.labels),
        sample_of(lines[buckets.len() as int + 1]) == Some(count),
        count.name == group.metric_name + "_count"@,
        group.open ==> group_key(group.labels) == group_key(count.labels),
    ensures
        run(MachineText::Grouped { group }, lines) == Ok::<Seq<Seq<SpanText>>, Fault>(
            seq![group_row(whole_group(group, buckets, sum, count))],
        ),
    decreases buckets.len(),
{
    let family = group.metric_name;
    let none = Seq::<Seq<SpanText>>::empty();
    lemma_shapes(family);
    let rest = lines.drop_first();
    if buckets.len() == 0 {
        lemma_plain_labels_group(sum.labels);
        lemma_plain_labels_group(count.labels);
        let summed = absorb(group, sum)->Ok_0.0;
        assert(gather(group, sum) == Ok::<(MachineText, Seq<Seq<SpanText>>), Fault>(
            (MachineText::Grouped { group: summed }, none),
        ));
        let counted = absorb(summed, count)->Ok_0.0;
        assert(counted == whole_group(group, buckets, sum, count)) by {
            assert(group.bs + all_picks(buckets) =~= group.bs);
        }
        let fresh = MachineText::Grouped { group: fresh_group(family) };
        let row = seq![group_row(counted)];
        assert(none.push(group_row(counted)) =~= row);
        assert(gather(summed, count) == Ok::<(MachineText, Seq<Seq<SpanText>>), Fault>(
            (fresh, row),
        ));
        let last = rest.drop_first();
        assert(rest[0] == lines[1]);
        assert(last.len() == 0);
        assert(run(fresh, last) == Ok::<Seq<Seq<SpanText>>, Fault>(none));
        assert(row + none =~= row);
        assert(run(MachineText::Grouped { group: summed }, rest) == Ok::<
            Seq<Seq<SpanText>>,
            Fault,
        >(row));
        assert(none + row =~= row);
    } else {
        let first = buckets[0];
        let others = buckets.drop_first();
        assert(sample_of(lines[0]) == Some(first));
        lemma_plain_labels_group(first.labels);
        let next = absorb(group, first)->Ok_0.0;
        assert(gather(group, first) == Ok::<(MachineText, Seq<Seq<SpanText>>), Fault>(
            (MachineText::Grouped { group: next }, none),
        ));
        assert forall|i: int| 0 <= i < others.len() implies sample_of(#[trigger] rest[i])
            == Some(others[i]) && others[i].name == next.metric_name + "_bucket"@ && group_key(
            others[i].labels,
        ) == group_key(count.labels) by {
            assert(rest[i] == lines[i + 1]);
            assert(others[i] == buckets[i + 1]);
        }
        assert(rest[others.len() as int] == lines[buckets.len() as int]);
        assert(rest[others.len() as int + 1] == lines[buckets.len() as int + 1]);
        lemma_group_rows(next, others, sum, count, rest);
        assert(next.bs + all_picks(others) =~= group.bs + all_picks(buckets));
        let row = seq![group_row(whole_group(group, buckets, sum, count))];
        assert(none + row =~= row);
    }
}

/// A histogram family whose bucket lines, sum line and count line follow
/// each other with the same labels but for `le` shows, behind its header,
/// exactly one row: that of the group with every bucket of the lines in
/// their order, the sum and the count.
pub proof fn lemma_histogram_family(
    name: Seq<char>,
    help: Seq<char>,
    buckets: Seq<SampleText>,
    sum: SampleText,
    count: SampleText,
    lines: Seq<Seq<char>>,
)
    requires
        lines.len() == buckets.len() + 4,
        help_of(lines[0]) == Some((name, help)),
        type_of(lines[1]) == Ok::<(Seq<char>, MetricType), ParseError>(
            (name, MetricType::Histogram),
        ),
        forall|i: int|
            0 <= i < buckets.len() ==> sample_of(#[trigger] lines[i + 2]) == Some(buckets[i])
                && buckets[i].name == name + "_bucket"@ && group_key(buckets[i].labels)
                == group_key(count.labels),
        sample_of(lines[buckets.len() as int + 2]) == Some(sum),
        sum.name == name + "_sum"@,
        group_key(sum.labels) == group_key(count.labels),
        sample_of(lines[buckets.len() as int + 3]) == Some(count),
        count.name == name + "_count"@,
    ensures
        run(MachineText::AwaitHelp, lines) == Ok::<Seq<Seq<SpanText>>, Fault>(
            seq![
                header_row(name, MetricType::Histogram, help),
                group_row(
                    GroupText {
                        metric_name: name,
                        open: true,
                        labels: plain_labels(count.labels),
                        bs: all_picks(buckets),
                        sum: sum.value,
                        count: count.value,
                    },
                ),
            ],
        ),
{
    let l1 = lines.drop_first();
    let l2 = l1.drop_first();
    let fresh = fresh_group(name);
    assert(l1[0] == lines[1]);
    assert forall|i: int| 0 <= i < buckets.len() implies sample_of(#[trigger] l2[i]) == Some(
        buckets[i],
    ) && buckets[i].name == fresh.metric_name + "_bucket"@ && group_key(buckets[i].labels)
        == group_key(count.labels) by {
        assert(l2[i] == lines[i + 2]);
    }
    assert(l2[buckets.len() as int] == lines[buckets.len() as int + 2]);
    assert(l2[buckets.len() as int + 1] == lines[buckets.len() as int + 3]);
    lemma_group_rows(fresh, buckets, sum, count, l2);
    let whole = whole_group(fresh, buckets, sum, count);
    assert(fresh.bs + all_picks(buckets) =~= all_picks(buckets));
    let head = seq![header_row(name, MetricType::Histogram, help)];
    let body = seq![group_row(whole)];
    assert(step(MachineText::AwaitType { name, help }, l1[0]) == Ok::<
        (MachineText, Seq<Seq<SpanText>>),
        Fault,
    >((MachineText::Grouped { group: fresh }, head)));
    assert(run(MachineText::AwaitType { name, help }, l1) == Ok::<Seq<Seq<SpanText>>, Fault>(
        head + body,
    ));
    assert(Seq::<Seq<SpanText>>::empty() + (head + body) =~= head + body);
    assert(head + body =~= seq![
        header_row(name, MetricType::Histogram, help),
        group_row(whole),
    ]);
}

/// What a step gives behind a row that was shown before it.
pub open spec fn behind(
    row: Seq<SpanText>,
    r: Result<(MachineText, Seq<Seq<SpanText>>), Fault>,
) -> Result<(MachineText, Seq<Seq<SpanText>>), Fault> {
    match r {
        Err(fault) => Err(fault),
        Ok((next, rows)) => Ok((next, seq![row] + rows)),
    }
}

/// A sample whose labels make another group than the one that is being
/// gathered never joins it: the group is shown as it stands, and the sample
/// is taken as the first of its family would be.
pub proof fn lemma_new_labels_new_group(group: GroupText, sample: SampleText)
    requires
        group.open,
        group_key(group.labels) != group_key(sample.labels),
    ensures
        gather(group, sample) == behind(
            group_row(group),
            gather(fresh_group(group.metric_name), sample),
        ),
{
    let fresh = fresh_group(group.metric_name);
    match absorb(fresh, sample) {
        Err(fault) => {},
        Ok((next, complete)) => {
            let none = Seq::<Seq<SpanText>>::empty();
            let left = seq![group_row(group)];
            assert(left.push(group_row(next)) =~= left + none.push(group_row(next)));
            assert(left =~= left + none);
        },
    }
}

/// A `# TYPE` line that names another family than the `# HELP` line before
/// it ends the reading with a fault, whatever follows.
pub proof fn lemma_name_mismatch(
    name: Seq<char>,
    help: Seq<char>,
    other: Seq<char>,
    kind: MetricType,
    lines: Seq<Seq<char>>,
)
    requires
        lines.len() >= 1,
        type_of(lines[0]) == Ok::<(Seq<char>, MetricType), ParseError>((other, kind)),
        other != name,
    ensures
        run(MachineText::AwaitType { name, help }, lines) == Err::<Seq<Seq<SpanText>>, Fault>(
            Fault::NameMismatch,
        ),
{
}

/// A stream whose second line is a `# TYPE` line for another family than its
/// first line, a `# HELP` line, names is given up with a fault, however long
/// it is.
pub proof fn lemma_name_mismatch_at_start(
    name: Seq<char>,
    help: Seq<char>,
    other: Seq<char>,
    kind: MetricType,
    lines: Seq<Seq<char>>,
)
    requires
        lines.len() >= 2,
        help_of(lines[0]) == Some((name, help)),
        type_of(lines[1]) == Ok::<(Seq<char>, MetricType), ParseError>((other, kind)),
        other != name,
    ensures
        run(MachineText::AwaitHelp, lines) == Err::<Seq<Seq<SpanText>>, Fault>(
            Fault::NameMismatch,
        ),
{
    let rest = lines.drop_first();
    assert(rest[0] == lines[1]);
    lemma_name_mismatch(name, help, other, kind, rest);
}

/// A stream that ends behind a `# HELP` and a `# TYPE` line shows the header
/// and nothing else, and ends without a fault.
pub proof fn lemma_header_only(
    name: Seq<char>,
    help: Seq<char>,
    kind: MetricType,
    lines: Seq<Seq<char>>,
)
    requires
        lines.len() == 2,
        help_of(lines[0]) == Some((name, help)),
        type_of(lines[1]) == Ok::<(Seq<char>, MetricType), ParseError>((name, kind)),
    ensures
        run(MachineText::AwaitHelp, lines) == Ok::<Seq<Seq<SpanText>>, Fault>(
            seq![header_row(name, kind, help)],
        ),
{
    let l1 = lines.drop_first();
    let l2 = l1.drop_first();
    assert(l1[0] == lines[1]);
    assert(l2.len() == 0);
    let head = seq![header_row(name, kind, help)];
    let none = Seq::<Seq<SpanText>>::empty();
    assert(reading_rows(Seq::<ReadingText>::empty()) =~= none);
    assert(run(opened(name, kind), l2) == Ok::<Seq<Seq<SpanText>>, Fault>(none));
    assert(head + none =~= head);
    assert(run(MachineText::AwaitType { name, help }, l1) == Ok::<Seq<Seq<SpanText>>, Fault>(
        head,
    ));
    assert(none + head =~= head);
}

/// The lines of a list of samples, in the order of the list.
pub open spec fn sample_lines(samples: Seq<SampleText>) -> Seq<Seq<char>> {
    Seq::new(samples.len(), |i: int| sample_line(samples[i]))
}

/// A stream that holds one gauge or counter family, written from its name,
/// help text and samples, shows the header and then exactly one row for each
/// sample, in the order of the samples, each with the labels and the value
/// of its sample as they were written.
pub proof fn lemma_flat_stream(
    name: Seq<char>,
    help: Seq<char>,
    kind: MetricType,
    samples: Seq<SampleText>,
)
    requires
        is_name(name),
        single_line(help),
        kind == MetricType::Counter || kind == MetricType::Gauge,
        forall|i: int|
            0 <= i < samples.len() ==> is_sample(#[trigger] samples[i]) && is_prefix(
                name,
                samples[i].name,
            ),
    ensures
        run(
            MachineText::AwaitHelp,
            seq![help_line(name, help), type_line(name, kind)] + sample_lines(samples),
        ) == Ok::<Seq<Seq<SpanText>>, Fault>(
            seq![header_row(name, kind, help)] + reading_rows(readings_of(samples)),
        ),
{
    let lines = seq![help_line(name, help), type_line(name, kind)] + sample_lines(samples);
    lemma_help_read(name, help);
    lemma_type_read(name, kind);
    assert forall|i: int| 0 <= i < samples.len() implies sample_of(#[trigger] lines[i + 2])
        == Some(samples[i]) && is_prefix(name, samples[i].name) by {
        assert(is_sample(samples[i]));
        lemma_sample_read(samples[i]);
        assert(lines[i + 2] == sample_line(samples[i]));
    }
    lemma_flat_family(name, help, kind, samples, lines);
}

/// A stream that holds one histogram family, written from its name, its
/// help text, bucket samples, a sum and a count that all have the same
/// labels but for `le`, shows the header and then exactly one row: that of
/// the group with every bucket in its order, the sum and the count.
pub proof fn lemma_histogram_stream(
    name: Seq<char>,
    help: Seq<char>,
    buckets: Seq<SampleText>,
    sum: SampleText,
    count: SampleText,
)
    requires
        is_name(name),
        single_line(help),
        forall|i: int|
            0 <= i < buckets.len() ==> is_sample(#[trigger] buckets[i]) && buckets[i].name == name
                + "_bucket"@ && group_key(buckets[i].labels) == group_key(count.labels),
        is_sample(sum),
        sum.name == name + "_sum"@,
        group_key(sum.labels) == group_key(count.labels),
        is_sample(count),
        count.name == name + "_count"@,
    ensures
        run(
            MachineText::AwaitHelp,
            seq![help_line(name, help), type_line(name, MetricType::Histogram)] + sample_lines(
                buckets,
            ) + seq![sample_line(sum), sample_line(count)],
        ) == Ok::<Seq<Seq<SpanText>>, Fault>(
            seq![
                header_row(name, MetricType::Histogram, help),
                group_row(
                    GroupText {
                        metric_name: name,
                        open: true,
                        labels: plain_labels(count.labels),
                        bs: all_picks(buckets),
                        sum: sum.value,
                        count: count.value,
                    },
                ),
            ],
        ),
{
    let lines = seq![help_line(name, help), type_line(name, MetricType::Histogram)] + sample_lines(
        buckets,
    ) + seq![sample_line(sum), sample_line(count)];
    lemma_help_read(name, help);
    lemma_type_read(name, MetricType::Histogram);
    lemma_sample_read(sum);
    lemma_sample_read(count);
    assert forall|i: int| 0 <= i < buckets.len() implies sample_of(#[trigger] lines[i + 2])
        == Some(buckets[i]) && buckets[i].name == name + "_bucket"@ && group_key(
        buckets[i].labels,
    ) == group_key(count.labels) by {
        assert(is_sample(buckets[i]));
        lemma_sample_read(buckets[i]);
        assert(lines[i + 2] == sample_line(buckets[i]));
    }
    assert(lines[buckets.len() as int + 2] == sample_line(sum));
    assert(lines[buckets.len() as int + 3] == sample_line(count));
    lemma_histogram_family(name, help, buckets, sum, count, lines);
}

/// A stream that begins with the `# HELP` line of one family and the
/// `# TYPE` line of another is given up with a fault, whatever follows and
/// however much of it.
pub proof fn lemma_mismatch_stream(
    name: Seq<char>,
    help: Seq<char>,
    other: Seq<char>,
    kind: MetricType,
    more: Seq<Seq<char>>,
)
    requires
        is_name(name),
        is_name(other),
        single_line(help),
        other != name,
    ensures
        run(
            MachineText::AwaitHelp,
            seq![help_line(name, help), type_line(other, kind)] + more,
        ) == Err::<Seq<Seq<SpanText>>, Fault>(Fault::NameMismatch),
{
    let lines = seq![help_line(name, help), type_line(other, kind)] + more;
    lemma_help_read(name, help);
    lemma_type_read(other, kind);
    lemma_name_mismatch_at_start(name, help, other, kind, lines);
}

/// A stream that is the `# HELP` and the `# TYPE` line of a family and
/// nothing else shows the header and no other row, and ends without a
/// fault, whatever the type.
pub proof fn lemma_header_stream(name: Seq<char>, help: Seq<char>, kind: MetricType)
    requires
        is_name(name),
        single_line(help),
    ensures
        run(MachineText::AwaitHelp, seq![help_line(name, help), type_line(name, kind)]) == Ok::<
            Seq<Seq<SpanText>>,
            Fault,
        >(seq![header_row(name, kind, help)]),
{
    lemma_help_read(name, help);
    lemma_type_read(name, kind);
    lemma_header_only(name, help, kind, seq![help_line(name, help), type_line(name, kind)]);
}

/// Among the samples of a family, a line that is no sample ends the family
/// and is read as the first line of a stream would be: what follows shows
/// what the family has left, and then what the lines show by themselves.
pub proof fn lemma_boundary(m: MachineText, lines: Seq<Seq<char>>)
    requires
        m is Flat || m is Grouped,
        lines.len() >= 1,
        sample_of(lines[0]) is None,
    ensures
        run(m, lines) == after(closing_rows(m), run(MachineText::AwaitHelp, lines)),
{
    let none = Seq::<Seq<SpanText>>::empty();
    match help_of(lines[0]) {
        None => {},
        Some((name, help)) => {
            let next = MachineText::AwaitType { name, help };
            assert(step(m, lines[0]) == Ok::<(MachineText, Seq<Seq<SpanText>>), Fault>(
                (next, closing_rows(m)),
            ));
            assert(step(MachineText::AwaitHelp, lines[0]) == Ok::<
                (MachineText, Seq<Seq<SpanText>>),
                Fault,
            >((next, none)));
            match run(next, lines.drop_first()) {
                Err(fault) => {},
                Ok(more) => {
                    assert(closing_rows(m) + (none + more) =~= closing_rows(m) + more);
                },
            }
        },
    }
}

/// A `# HELP` line is never a sample line.
pub proof fn lemma_help_is_no_sample(name: Seq<char>, help: Seq<char>)
    ensures
        sample_of(help_line(name, help)) is None,
{
    let s = help_line(name, help);
    assert(s[0] == '#');
}

} // verus!
