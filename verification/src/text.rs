//! Lines as they are written from their parts, and the proof that reading a
//! line and writing it are each other's inverse.

use vstd::prelude::*;
use crate::grammar::{
    identifier_char, is_number, lemma_run_end, lemma_run_end_unique, run_end, CharClass,
};
use crate::line::{
    help_of, label_at, label_block_at, labels_at, sample_of, single_line, type_of, type_of_word,
    type_word, LabelText, MetricType, ParseError, SampleText,
};

verus! {

/// True where `s` is a name: one or more letters, digits and `_`.
pub open spec fn is_name(s: Seq<char>) -> bool {
    s.len() > 0 && forall|i: int| 0 <= i < s.len() ==> identifier_char(#[trigger] s[i])
}

/// The `# HELP` line of the family called `name` with the help text `help`.
pub open spec fn help_line(name: Seq<char>, help: Seq<char>) -> Seq<char> {
    seq!['#', ' ', 'H', 'E', 'L', 'P', ' '] + name + seq![' '] + help
}

/// The `# TYPE` line of the family called `name` with the type `kind`.
pub open spec fn type_line(name: Seq<char>, kind: MetricType) -> Seq<char> {
    seq!['#', ' ', 'T', 'Y', 'P', 'E', ' '] + name + seq![' '] + type_word(kind)
}

/// A `# HELP` line that was taken is the line written from what it gave: a
/// name, and a help text without line breaks.
pub proof fn lemma_help_written(s: Seq<char>, name: Seq<char>, help: Seq<char>)
    requires
        help_of(s) == Some((name, help)),
    ensures
        s == help_line(name, help),
        is_name(name),
        single_line(help),
{
    lemma_run_end(s, 7, CharClass::Identifier);
    assert(s =~= help_line(name, help));
}

/// The `# HELP` line written from a name and a help text without line
/// breaks is taken, and gives them back.
pub proof fn lemma_help_read(name: Seq<char>, help: Seq<char>)
    requires
        is_name(name),
        single_line(help),
    ensures
        help_of(help_line(name, help)) == Some((name, help)),
{
    let s = help_line(name, help);
    let end: int = name.len() as int + 7;
    assert forall|i: int| 7 <= i < end implies CharClass::Identifier.holds(#[trigger] s[i]) by {
        assert(s[i] == name[i - 7]);
    }
    assert(s[end] == ' ');
    lemma_run_end_unique(s, 7, end, CharClass::Identifier);
    assert(s.subrange(7, end) =~= name);
    assert(s.subrange(end + 1, s.len() as int) =~= help);
}

/// The words of the four types are words of letters, each names its type,
/// and no two are alike.
pub proof fn lemma_type_words(kind: MetricType)
    ensures
        type_of_word(type_word(kind)) == Some(kind),
        type_word(kind).len() > 0,
        forall|i: int|
            0 <= i < type_word(kind).len() ==> CharClass::Letter.holds(
                #[trigger] type_word(kind)[i],
            ),
{
    reveal_strlit("counter");
    reveal_strlit("gauge");
    reveal_strlit("histogram");
    reveal_strlit("summary");
    assert("counter"@.len() == 7);
    assert("gauge"@.len() == 5);
    assert("histogram"@.len() == 9);
    assert("summary"@.len() == 7);
    assert("counter"@[0] == 'c');
    assert("summary"@[0] == 's');
}

/// A `# TYPE` line that was taken is the line written from what it gave.
pub proof fn lemma_type_written(s: Seq<char>, name: Seq<char>, kind: MetricType)
    requires
        type_of(s) == Ok::<(Seq<char>, MetricType), ParseError>((name, kind)),
    ensures
        s == type_line(name, kind),
        is_name(name),
{
    lemma_run_end(s, 7, CharClass::Identifier);
    let end = run_end(s, 7, CharClass::Identifier);
    let word = s.subrange(end + 1, s.len() as int);
    assert(type_of_word(word) == Some(kind));
    assert(word == type_word(kind));
    assert(s =~= type_line(name, kind));
}

/// The `# TYPE` line written from a name and a type is taken, and gives
/// them back.
pub proof fn lemma_type_read(name: Seq<char>, kind: MetricType)
    requires
        is_name(name),
    ensures
        type_of(type_line(name, kind)) == Ok::<(Seq<char>, MetricType), ParseError>(
            (name, kind),
        ),
{
    let s = type_line(name, kind);
    let word = type_word(kind);
    let end: int = name.len() as int + 7;
    lemma_type_words(kind);
    assert forall|i: int| 7 <= i < end implies CharClass::Identifier.holds(#[trigger] s[i]) by {
        assert(s[i] == name[i - 7]);
    }
    assert(s[end] == ' ');
    lemma_run_end_unique(s, 7, end, CharClass::Identifier);
    assert forall|i: int| end + 1 <= i < s.len() implies CharClass::Letter.holds(
        #[trigger] s[i],
    ) by {
        assert(s[i] == word[i - (end + 1)]);
    }
    lemma_run_end_unique(s, end + 1, s.len() as int, CharClass::Letter);
    assert(s.subrange(7, end) =~= name);
    assert(s.subrange(end + 1, s.len() as int) =~= word);
}

/// True where `label` can be written: its key is a name, and its value
/// holds no double quote.
pub open spec fn is_label(label: LabelText) -> bool {
    is_name(label.key) && forall|i: int|
        0 <= i < label.value.len() ==> CharClass::Unquoted.holds(#[trigger] label.value[i])
}

/// True where `sample` can be written: its name is a name, its labels can
/// be written, and its value is a number.
pub open spec fn is_sample(sample: SampleText) -> bool {
    &&& is_name(sample.name)
    &&& forall|i: int| 0 <= i < sample.labels.len() ==> is_label(#[trigger] sample.labels[i])
    &&& is_number(sample.value)
}

/// A label as it is written: the key, `=`, and the value in double quotes.
pub open spec fn label_text(label: LabelText) -> Seq<char> {
    label.key + seq!['=', '"'] + label.value + seq!['"']
}

/// Labels as they are written: one after the other, with a comma between
/// each two.
pub open spec fn labels_text(labels: Seq<LabelText>) -> Seq<char>
    decreases labels.len(),
{
    if labels.len() == 0 {
        Seq::empty()
    } else if labels.len() == 1 {
        label_text(labels[0])
    } else {
        label_text(labels[0]) + seq![','] + labels_text(labels.drop_first())
    }
}

/// The block of labels as it is written: nothing where there is no label,
/// and else the labels in braces.
pub open spec fn block_text(labels: Seq<LabelText>) -> Seq<char> {
    if labels.len() == 0 {
        Seq::empty()
    } else {
        seq!['{'] + labels_text(labels) + seq!['}']
    }
}

/// A sample line as it is written: the name, the block of labels, a space,
/// and the value.
pub open spec fn sample_line(sample: SampleText) -> Seq<char> {
    sample.name + block_text(sample.labels) + seq![' '] + sample.value
}

/// A label that was taken at `at` is written there, and can be written.
pub proof fn lemma_label_written(s: Seq<char>, at: int, label: LabelText, next: int)
    requires
        label_at(s, at) == Some((label, next)),
    ensures
        0 <= at < next <= s.len(),
        s.subrange(at, next) == label_text(label),
        is_label(label),
{
    let k = run_end(s, at, CharClass::Identifier);
    lemma_run_end(s, at, CharClass::Identifier);
    lemma_run_end(s, k + 2, CharClass::Unquoted);
    assert(s.subrange(at, next) =~= label_text(label));
}

/// Labels that were taken at `at` are written there, are one or more, and
/// can each be written.
pub proof fn lemma_labels_written(s: Seq<char>, at: int, labels: Seq<LabelText>, end: int)
    requires
        labels_at(s, at) == Some((labels, end)),
    ensures
        0 <= at < end <= s.len(),
        labels.len() >= 1,
        s.subrange(at, end) == labels_text(labels),
        forall|i: int| 0 <= i < labels.len() ==> is_label(#[trigger] labels[i]),
    decreases s.len() - at,
{
    let (label, next) = label_at(s, at)->Some_0;
    lemma_label_written(s, at, label, next);
    if at < next < s.len() && s[next] == ',' {
        let (more, stop) = labels_at(s, next + 1)->Some_0;
        lemma_labels_written(s, next + 1, more, end);
        assert(labels == seq![label] + more);
        assert(labels.drop_first() =~= more);
        assert(s.subrange(at, end) =~= s.subrange(at, next) + seq![','] + s.subrange(
            next + 1,
            end,
        ));
        assert forall|i: int| 0 <= i < labels.len() implies is_label(#[trigger] labels[i]) by {
            if i > 0 {
                assert(labels[i] == more[i - 1]);
            }
        }
    } else {
        assert(labels == seq![label]);
    }
}

/// A sample line that was taken is the line written from what it gave, and
/// what it gave can be written: the name, every label in its place with its
/// key and value, and the value are those of the line.
pub proof fn lemma_sample_written(s: Seq<char>, sample: SampleText)
    requires
        sample_of(s) == Some(sample),
    ensures
        s == sample_line(sample),
        is_sample(sample),
{
    let n = run_end(s, 0, CharClass::Identifier);
    lemma_run_end(s, 0, CharClass::Identifier);
    let (labels, sp) = label_block_at(s, n)->Some_0;
    if n < s.len() && s[n] == '{' {
        let (found, end) = labels_at(s, n + 1)->Some_0;
        lemma_labels_written(s, n + 1, found, end);
        assert(s.subrange(n, sp) =~= seq!['{'] + s.subrange(n + 1, end) + seq!['}']);
        assert(s.subrange(n, sp) == block_text(labels));
    } else {
        assert(s.subrange(n, sp) =~= block_text(labels));
    }
    assert(s =~= s.subrange(0, n) + s.subrange(n, sp) + seq![' '] + s.subrange(
        sp + 1,
        s.len() as int,
    ));
}

/// A label that can be written and is written at `at` is the label taken
/// there.
pub proof fn lemma_label_read(s: Seq<char>, at: int, label: LabelText)
    requires
        0 <= at,
        at + label_text(label).len() <= s.len(),
        s.subrange(at, at + label_text(label).len()) == label_text(label),
        is_label(label),
    ensures
        label_at(s, at) == Some((label, at + label_text(label).len())),
{
    let t = label_text(label);
    let k = at + label.key.len();
    let v = k + 2 + label.value.len();
    assert forall|i: int| at <= i < at + t.len() implies s[i] == t[i - at] by {
        assert(s.subrange(at, at + t.len())[i - at] == s[i]);
    }
    assert forall|i: int| at <= i < k implies CharClass::Identifier.holds(#[trigger] s[i]) by {
        assert(t[i - at] == label.key[i - at]);
    }
    assert(s[k] == t[k - at]);
    assert(s[k] == '=');
    lemma_run_end_unique(s, at, k, CharClass::Identifier);
    assert(s[k + 1] == t[k + 1 - at]);
    assert forall|i: int| k + 2 <= i < v implies CharClass::Unquoted.holds(#[trigger] s[i]) by {
        assert(t[i - at] == label.value[i - (k + 2)]);
    }
    assert(s[v] == t[v - at]);
    assert(s[v] == '"');
    lemma_run_end_unique(s, k + 2, v, CharClass::Unquoted);
    assert(s.subrange(at, k) =~= label.key);
    assert(s.subrange(k + 2, v) =~= label.value);
}

/// Labels that can be written and are written at `at`, with something else
/// than a comma behind them, are the labels taken there.
pub proof fn lemma_labels_read(s: Seq<char>, at: int, labels: Seq<LabelText>)
    requires
        0 <= at,
        labels.len() >= 1,
        forall|i: int| 0 <= i < labels.len() ==> is_label(#[trigger] labels[i]),
        at + labels_text(labels).len() < s.len(),
        s.subrange(at, at + labels_text(labels).len()) == labels_text(labels),
        s[at + labels_text(labels).len()] != ',',
    ensures
        labels_at(s, at) == Some((labels, at + labels_text(labels).len())),
    decreases labels.len(),
{
    let all = labels_text(labels);
    let first = labels[0];
    let t = label_text(first);
    let next = at + t.len();
    assert forall|i: int| at <= i < at + all.len() implies s[i] == all[i - at] by {
        assert(s.subrange(at, at + all.len())[i - at] == s[i]);
    }
    if labels.len() == 1 {
        lemma_label_read(s, at, first);
        assert(seq![first] =~= labels);
    } else {
        let rest = labels.drop_first();
        let more = labels_text(rest);
        assert(all == t + seq![','] + more);
        assert(s.subrange(at, next) =~= t);
        lemma_label_read(s, at, first);
        assert(s[next] == all[next - at]);
        assert(s[next] == ',');
        assert(s.subrange(next + 1, next + 1 + more.len()) =~= more);
        assert forall|i: int| 0 <= i < rest.len() implies is_label(#[trigger] rest[i]) by {
            assert(rest[i] == labels[i + 1]);
        }
        lemma_labels_read(s, next + 1, rest);
        assert(seq![first] + rest =~= labels);
    }
}

/// The line written from a sample that can be written is taken, and gives
/// the sample back: the same name, the same labels in the same order, and
/// the same value.
pub proof fn lemma_sample_read(sample: SampleText)
    requires
        is_sample(sample),
    ensures
        sample_of(sample_line(sample)) == Some(sample),
{
    let s = sample_line(sample);
    let n = sample.name.len() as int;
    let block = block_text(sample.labels);
    let sp = n + block.len();
    assert forall|i: int| 0 <= i < n implies CharClass::Identifier.holds(#[trigger] s[i]) by {
        assert(s[i] == sample.name[i]);
    }
    assert(s[sp] == ' ');
    if sample.labels.len() == 0 {
        assert(sample.labels =~= Seq::<LabelText>::empty());
    } else {
        let inner = labels_text(sample.labels);
        assert(s[n] == block[0]);
        assert(s[n] == '{');
        assert(s.subrange(n + 1, n + 1 + inner.len()) =~= inner);
        assert(s[n + 1 + inner.len()] == block[inner.len() as int + 1]);
        lemma_labels_read(s, n + 1, sample.labels);
    }
    lemma_run_end_unique(s, 0, n, CharClass::Identifier);
    assert(s.subrange(0, n) =~= sample.name);
    assert(s.subrange(sp + 1, s.len() as int) =~= sample.value);
}

/// True where `s` is no `# HELP` line, whatever name and help text one
/// writes.
pub open spec fn no_help_line(s: Seq<char>) -> bool {
    forall|name: Seq<char>, help: Seq<char>|
        is_name(name) && single_line(help) ==> s != #[trigger] help_line(name, help)
}

/// True where `s` is no `# TYPE` line, whatever name and type one writes.
pub open spec fn no_type_line(s: Seq<char>) -> bool {
    forall|name: Seq<char>, kind: MetricType|
        is_name(name) ==> s != #[trigger] type_line(name, kind)
}

/// True where `s` is no sample line, whatever sample one writes.
pub open spec fn no_sample_line(s: Seq<char>) -> bool {
    forall|sample: SampleText| is_sample(sample) ==> s != #[trigger] sample_line(sample)
}

/// A line that gives no name and help text is no `# HELP` line.
pub proof fn lemma_no_help_line(s: Seq<char>)
    requires
        help_of(s) is None,
    ensures
        no_help_line(s),
{
    assert forall|name: Seq<char>, help: Seq<char>|
        is_name(name) && single_line(help) implies s != #[trigger] help_line(name, help) by {
        lemma_help_read(name, help);
    }
}

/// A line that gives no name and type is no `# TYPE` line.
pub proof fn lemma_no_type_line(s: Seq<char>)
    requires
        type_of(s) is Err,
    ensures
        no_type_line(s),
{
    assert forall|name: Seq<char>, kind: MetricType| is_name(name) implies s
        != #[trigger] type_line(name, kind) by {
        lemma_type_read(name, kind);
    }
}

/// A line that gives no sample is no sample line.
pub proof fn lemma_no_sample_line(s: Seq<char>)
    requires
        sample_of(s) is None,
    ensures
        no_sample_line(s),
{
    assert forall|sample: SampleText| is_sample(sample) implies s != #[trigger] sample_line(
        sample,
    ) by {
        lemma_sample_read(sample);
    }
}

} // verus!
