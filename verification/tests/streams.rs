use promview::error::Fault;
use promview::family::{parse_metrics, starts_with, Machine};
use promview::line::MetricType;
use promview::paint::{join, paint, paint_row};
use promview::render::{render_header, span, Role, Span};

fn lines(text: &[&str]) -> Vec<String> {
    text.iter().map(|l| l.to_string()).collect()
}

fn text_of(row: &[Span]) -> String {
    row.iter().map(|s| s.text.as_str()).collect()
}

fn texts(rows: &[Vec<Span>]) -> Vec<String> {
    rows.iter().map(|r| text_of(r)).collect()
}

fn shown(text: &[&str]) -> Result<Vec<String>, Fault> {
    parse_metrics(&lines(text)).map(|rows| texts(&rows))
}

#[test]
fn round_trip() {
    let rows = parse_metrics(&lines(&[
        "# HELP req_total Total requests",
        "# TYPE req_total counter",
        "req_total{method=\"GET\"} 5",
        "req_total{method=\"POST\"} 2",
        "# HELP lat Latency",
        "# TYPE lat histogram",
        "lat_bucket{le=\"0.1\"} 3",
        "lat_bucket{le=\"1\"} 5",
        "lat_sum 4.2",
        "lat_count 5",
    ]))
    .unwrap();
    assert_eq!(
        texts(&rows),
        vec![
            "req_total counter \"Total requests\"",
            "  5\tmethod=GET ",
            "  2\tmethod=POST ",
            "lat histogram \"Latency\"",
            "  sum 4.2 count 5 (0.1 3, 1 5, ) ",
        ]
    );
    assert_eq!(
        rows[4],
        vec![
            span(Role::Plain, "  sum "),
            span(Role::Value, "4.2"),
            span(Role::Plain, " count "),
            span(Role::Value, "5"),
            span(Role::Plain, " ("),
            span(Role::Bound, "0.1"),
            span(Role::Plain, " "),
            span(Role::Tally, "3"),
            span(Role::Plain, ", "),
            span(Role::Bound, "1"),
            span(Role::Plain, " "),
            span(Role::Tally, "5"),
            span(Role::Plain, ", "),
            span(Role::Plain, ") "),
        ]
    );
}

#[test]
fn header_spans() {
    assert_eq!(
        render_header("up", MetricType::Gauge, "Is it up"),
        vec![
            Span { role: Role::Name, text: "up".to_string() },
            Span { role: Role::Plain, text: " ".to_string() },
            Span { role: Role::Kind, text: "gauge".to_string() },
            Span { role: Role::Plain, text: " \"".to_string() },
            Span { role: Role::Plain, text: "Is it up".to_string() },
            Span { role: Role::Plain, text: "\"".to_string() },
        ]
    );
}

#[test]
fn flat_family_one_row_per_sample_in_order() {
    assert_eq!(
        shown(&[
            "# HELP up Is it up",
            "# TYPE up gauge",
            "up{zone=\"b\",host=\"h1\"} 1",
            "up 0",
            "up{host=\"h2\",zone=\"a\"} 1e0",
            "up_extra{x=\"\"} -2.50",
        ]),
        Ok(vec![
            "up gauge \"Is it up\"".to_string(),
            "  1\tzone=b host=h1 ".to_string(),
            "  0\t".to_string(),
            "  1e0\thost=h2 zone=a ".to_string(),
            "  -2.50\tx= ".to_string(),
        ])
    );
}

#[test]
fn flat_rows_come_when_the_family_ends() {
    let m = Machine::new();
    let (m, rows) = m.step("# HELP a A").unwrap();
    assert!(rows.is_empty());
    let (m, rows) = m.step("# TYPE a counter").unwrap();
    assert_eq!(texts(&rows), vec!["a counter \"A\""]);
    let (m, rows) = m.step("a 1").unwrap();
    assert!(rows.is_empty());
    let (m, rows) = m.step("a 2").unwrap();
    assert!(rows.is_empty());
    let (m, rows) = m.step("# HELP b B").unwrap();
    assert_eq!(texts(&rows), vec!["  1\t", "  2\t"]);
    let (m, rows) = m.step("# TYPE b gauge").unwrap();
    assert_eq!(texts(&rows), vec!["b gauge \"B\""]);
    assert_eq!(m.finish().map(|r| r.len()), Ok(0));
}

#[test]
fn histogram_shows_one_group() {
    assert_eq!(
        shown(&[
            "# HELP h H",
            "# TYPE h histogram",
            "h_bucket{job=\"a\",le=\"0.5\"} 1",
            "h_bucket{le=\"1\",job=\"a\"} 2",
            "h_bucket{job=\"a\",le=\"+Inf\"} 3",
            "h_sum{job=\"a\"} 9.5",
            "h_count{job=\"a\"} 3",
        ]),
        Ok(vec![
            "h histogram \"H\"".to_string(),
            "  sum 9.5 count 3 (0.5 1, 1 2, +Inf 3, ) job=a ".to_string(),
        ])
    );
}

#[test]
fn group_is_shown_when_its_count_comes() {
    let m = Machine::new();
    let (m, _) = m.step("# HELP h H").unwrap();
    let (m, _) = m.step("# TYPE h histogram").unwrap();
    let (m, rows) = m.step("h_bucket{le=\"1\"} 2").unwrap();
    assert!(rows.is_empty());
    let (m, rows) = m.step("h_sum 3").unwrap();
    assert!(rows.is_empty());
    let (m, rows) = m.step("h_count 2").unwrap();
    assert_eq!(texts(&rows), vec!["  sum 3 count 2 (1 2, ) "]);
    assert_eq!(m.finish().map(|r| r.len()), Ok(0));
}

#[test]
fn groups_follow_each_other() {
    assert_eq!(
        shown(&[
            "# HELP h H",
            "# TYPE h histogram",
            "h_bucket{job=\"a\",le=\"1\"} 2",
            "h_sum{job=\"a\"} 3",
            "h_count{job=\"a\"} 2",
            "h_bucket{job=\"b\",le=\"1\"} 4",
            "h_sum{job=\"b\"} 5",
            "h_count{job=\"b\"} 4",
        ]),
        Ok(vec![
            "h histogram \"H\"".to_string(),
            "  sum 3 count 2 (1 2, ) job=a ".to_string(),
            "  sum 5 count 4 (1 4, ) job=b ".to_string(),
        ])
    );
}

#[test]
fn new_labels_start_a_new_group() {
    assert_eq!(
        shown(&[
            "# HELP h H",
            "# TYPE h histogram",
            "h_bucket{job=\"a\",le=\"1\"} 2",
            "h_bucket{job=\"a\",le=\"2\"} 3",
            "h_bucket{job=\"b\",le=\"1\"} 4",
            "h_sum{job=\"b\"} 5",
            "h_count{job=\"c\"} 6",
            "h_bucket{job=\"d\",le=\"1\"} 7",
        ]),
        Ok(vec![
            "h histogram \"H\"".to_string(),
            "  sum 0 count 0 (1 2, 2 3, ) job=a ".to_string(),
            "  sum 5 count 0 (1 4, ) job=b ".to_string(),
            "  sum 0 count 6 () job=c ".to_string(),
            "  sum 0 count 0 (1 7, ) job=d ".to_string(),
        ])
    );
}

#[test]
fn summary_family() {
    assert_eq!(
        shown(&[
            "# HELP s S",
            "# TYPE s summary",
            "s{quantile=\"0.5\"} 1",
            "s{quantile=\"0.99\"} 2",
            "s_sum 3",
            "s_count 4",
            "# HELP t T",
            "# TYPE t counter",
            "t 1",
        ]),
        Ok(vec![
            "s summary \"S\"".to_string(),
            "  sum 3 count 4 (0.5 1, 0.99 2, ) ".to_string(),
            "t counter \"T\"".to_string(),
            "  1\t".to_string(),
        ])
    );
}

#[test]
fn open_group_is_shown_at_the_family_boundary() {
    assert_eq!(
        shown(&[
            "# HELP h H",
            "# TYPE h histogram",
            "h_bucket{le=\"1\"} 2",
            "# HELP g G",
            "# TYPE g gauge",
        ]),
        Ok(vec![
            "h histogram \"H\"".to_string(),
            "  sum 0 count 0 (1 2, ) ".to_string(),
            "g gauge \"G\"".to_string(),
        ])
    );
}

#[test]
fn header_only_streams() {
    assert_eq!(shown(&["# HELP a A", "# TYPE a gauge"]), Ok(vec!["a gauge \"A\"".to_string()]));
    assert_eq!(shown(&["# HELP a A", "# TYPE a counter"]), Ok(vec!["a counter \"A\"".to_string()]));
    assert_eq!(shown(&["# HELP a A", "# TYPE a histogram"]), Ok(vec!["a histogram \"A\"".to_string()]));
    assert_eq!(shown(&["# HELP a A", "# TYPE a summary"]), Ok(vec!["a summary \"A\"".to_string()]));
}

#[test]
fn name_mismatch_is_a_fault() {
    assert_eq!(shown(&["# HELP a A", "# TYPE b gauge"]), Err(Fault::NameMismatch));
    assert_eq!(shown(&["# HELP a A", "# TYPE b gauge", "b 1", "b 2"]), Err(Fault::NameMismatch));
    assert_eq!(
        shown(&["# HELP a A", "# TYPE a gauge", "a 1", "# HELP b B", "# TYPE a gauge", "a 2"]),
        Err(Fault::NameMismatch)
    );
    assert_eq!(shown(&["# HELP a A", "# TYPE ab gauge"]), Err(Fault::NameMismatch));
}

#[test]
fn faults() {
    assert_eq!(shown(&[]), Err(Fault::UnexpectedEnd));
    assert_eq!(shown(&["# HELP a A"]), Err(Fault::UnexpectedEnd));
    assert_eq!(shown(&[""]), Err(Fault::BadHelp));
    assert_eq!(shown(&["a 1"]), Err(Fault::BadHelp));
    assert_eq!(shown(&["# TYPE a gauge"]), Err(Fault::BadHelp));
    assert_eq!(shown(&["# HELP a A", "a 1"]), Err(Fault::BadType));
    assert_eq!(shown(&["# HELP a A", "# HELP a A"]), Err(Fault::BadType));
    assert_eq!(shown(&["# HELP a A", "# TYPE a untyped"]), Err(Fault::UnknownType));
    assert_eq!(shown(&["# HELP a A", "# TYPE a gauge", "b 1"]), Err(Fault::ForeignSample));
    assert_eq!(shown(&["# HELP a A", "# TYPE a gauge", "a 1", ""]), Err(Fault::BadHelp));
    assert_eq!(shown(&["# HELP a A", "# TYPE a gauge", "a 1 2"]), Err(Fault::BadHelp));
    assert_eq!(shown(&["# HELP a A", "# TYPE a gauge", "a 1", "# UNIT a s"]), Err(Fault::BadHelp));
    assert_eq!(shown(&["# HELP a A", "# TYPE a histogram", "a_total 1"]), Err(Fault::UnknownSuffix));
    assert_eq!(shown(&["# HELP a A", "# TYPE a summary", "ab_sum 1"]), Err(Fault::UnknownSuffix));
    assert_eq!(shown(&["# HELP a A", "# TYPE a summary", "a_sum 1", "# HELP b B"]), Err(Fault::UnexpectedEnd));
}

#[test]
fn prefixes() {
    assert!(starts_with("req_total", "req"));
    assert!(starts_with("req", "req"));
    assert!(starts_with("req", ""));
    assert!(!starts_with("re", "req"));
    assert!(!starts_with("xreq", "req"));
}

#[test]
fn plain_spans_are_painted_as_they_are() {
    assert_eq!(paint(&span(Role::Plain, " (")), " (");
    assert_eq!(paint(&span(Role::Tally, "3")), "3");
    let row = vec![span(Role::Plain, "  "), span(Role::Value, "5"), span(Role::Plain, "\t")];
    let parts = paint_row(&row);
    assert_eq!(parts.len(), 3);
    assert_eq!(parts[0], "  ");
    assert_eq!(parts[2], "\t");
}

#[test]
fn styled_spans_hold_their_text() {
    for role in [Role::Name, Role::Kind, Role::Value, Role::Bound, Role::Key, Role::Text] {
        let painted = paint(&span(role, "some_text"));
        assert!(painted.contains("some_text"), "{:?}", role);
    }
    assert!(paint(&span(Role::Name, "n")).contains("\u{1b}["));
    assert!(paint(&span(Role::Value, "n")).contains("\u{1b}["));
}

#[test]
fn join_concatenates() {
    assert_eq!(join(&vec![]), "");
    assert_eq!(join(&vec!["a".to_string(), "".to_string(), "bc".to_string()]), "abc");
}
