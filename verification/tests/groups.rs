use promview::aggregate::{
    has_label, is_discriminator, same_group, shape_of, strip_discriminators, Bucket,
    GaugeCounterParser, HistSummaryParser, Reading, Shape,
};
use promview::error::Fault;
use promview::line::{Label, Sample};
use promview::render::{Role, Span};

fn label(key: &str, value: &str) -> Label {
    Label { key: key.to_string(), value: value.to_string() }
}

fn sample(name: &str, labels: Vec<Label>, value: &str) -> Sample {
    Sample { name: name.to_string(), labels, value: value.to_string() }
}

fn text_of(row: &[Span]) -> String {
    row.iter().map(|s| s.text.as_str()).collect()
}

#[test]
fn discriminator_keys() {
    assert!(is_discriminator("le"));
    assert!(is_discriminator("quantile"));
    assert!(!is_discriminator("l"));
    assert!(!is_discriminator("LE"));
    assert!(!is_discriminator("job"));
    assert!(!is_discriminator(""));
}

#[test]
fn strip_keeps_order() {
    let labels = vec![label("b", "2"), label("le", "0.1"), label("a", "1"), label("quantile", "0.5")];
    assert_eq!(strip_discriminators(&labels), vec![label("b", "2"), label("a", "1")]);
    assert_eq!(strip_discriminators(&vec![]), vec![]);
}

#[test]
fn label_membership() {
    let labels = vec![label("a", "1"), label("b", "2")];
    assert!(has_label(&labels, &label("b", "2")));
    assert!(!has_label(&labels, &label("b", "1")));
    assert!(!has_label(&vec![], &label("b", "1")));
}

#[test]
fn same_group_ignores_order_and_discriminators() {
    let a = vec![label("job", "x"), label("le", "0.1"), label("zone", "eu")];
    let b = vec![label("zone", "eu"), label("job", "x"), label("le", "1")];
    let c = vec![label("zone", "eu"), label("job", "x")];
    let d = vec![label("zone", "us"), label("job", "x")];
    let e = vec![label("job", "x")];
    assert!(same_group(&a, &b));
    assert!(same_group(&a, &c));
    assert!(same_group(&c, &a));
    assert!(!same_group(&a, &d));
    assert!(!same_group(&a, &e));
    assert!(!same_group(&e, &a));
    assert!(same_group(&vec![], &vec![label("quantile", "0.5")]));
}

#[test]
fn shapes_need_the_whole_family_name() {
    assert_eq!(shape_of("lat", "lat"), Some(Shape::Quantile));
    assert_eq!(shape_of("lat", "lat_bucket"), Some(Shape::Bucket));
    assert_eq!(shape_of("lat", "lat_sum"), Some(Shape::Sum));
    assert_eq!(shape_of("lat", "lat_count"), Some(Shape::Count));
    assert_eq!(shape_of("lat", "lat_total"), None);
    assert_eq!(shape_of("lat", "latsum"), None);
    assert_eq!(shape_of("lat", "late_sum"), None);
    assert_eq!(shape_of("lat", "la"), None);
    assert_eq!(shape_of("lat", "xlat_sum"), None);
    assert_eq!(shape_of("lat", "lat_"), None);
}

#[test]
fn flat_parser_keeps_every_sample_in_order() {
    let mut p = GaugeCounterParser::new();
    assert_eq!(p.readings, vec![]);
    assert!(p.render().is_empty());
    assert!(!p.parse_line(sample("t", vec![label("b", "2"), label("a", "1")], "5")));
    assert!(!p.parse_line(sample("t", vec![], "1e3")));
    assert_eq!(
        p.readings,
        vec![
            Reading { labels: vec![label("b", "2"), label("a", "1")], value: "5".to_string() },
            Reading { labels: vec![], value: "1e3".to_string() },
        ]
    );
    let rows = p.render();
    assert_eq!(rows.len(), 2);
    assert_eq!(text_of(&rows[0]), "  5\tb=2 a=1 ");
    assert_eq!(text_of(&rows[1]), "  1e3\t");
    assert_eq!(
        rows[0].iter().map(|s| s.role).collect::<Vec<Role>>(),
        vec![
            Role::Plain,
            Role::Value,
            Role::Plain,
            Role::Key,
            Role::Plain,
            Role::Text,
            Role::Plain,
            Role::Key,
            Role::Plain,
            Role::Text,
            Role::Plain,
        ]
    );
}

#[test]
fn fresh_group_is_empty() {
    let p = HistSummaryParser::new("lat");
    assert_eq!(p.metric_name, "lat");
    assert!(!p.open);
    assert_eq!(p.labels, vec![]);
    assert_eq!(p.bs, vec![]);
    assert_eq!(p.sum, "0");
    assert_eq!(p.count, "0");
    assert_eq!(text_of(&p.render()), "  sum 0 count 0 () ");
}

#[test]
fn histogram_group_is_gathered() {
    let mut p = HistSummaryParser::new("lat");
    assert!(p.belongs(&vec![label("job", "a")]));
    assert_eq!(p.parse_line(sample("lat_bucket", vec![label("job", "a"), label("le", "0.1")], "3")), Ok(false));
    assert!(p.open);
    assert_eq!(p.labels, vec![label("job", "a")]);
    assert!(p.belongs(&vec![label("le", "1"), label("job", "a")]));
    assert!(!p.belongs(&vec![label("le", "1"), label("job", "b")]));
    assert!(!p.belongs(&vec![label("le", "1")]));
    assert_eq!(p.parse_line(sample("lat_bucket", vec![label("job", "a"), label("le", "1")], "5")), Ok(false));
    assert_eq!(p.parse_line(sample("lat_sum", vec![label("job", "a")], "4.2")), Ok(false));
    assert_eq!(p.sum, "4.2");
    assert_eq!(p.count, "0");
    assert_eq!(p.parse_line(sample("lat_count", vec![label("job", "a")], "5")), Ok(true));
    assert_eq!(p.count, "5");
    assert_eq!(
        p.bs,
        vec![
            Bucket { bound: "0.1".to_string(), value: "3".to_string() },
            Bucket { bound: "1".to_string(), value: "5".to_string() },
        ]
    );
    assert_eq!(text_of(&p.render()), "  sum 4.2 count 5 (0.1 3, 1 5, ) job=a ");
    assert_eq!(
        p.render().iter().map(|s| s.role).collect::<Vec<Role>>(),
        vec![
            Role::Plain,
            Role::Value,
            Role::Plain,
            Role::Value,
            Role::Plain,
            Role::Bound,
            Role::Plain,
            Role::Tally,
            Role::Plain,
            Role::Bound,
            Role::Plain,
            Role::Tally,
            Role::Plain,
            Role::Plain,
            Role::Key,
            Role::Plain,
            Role::Text,
            Role::Plain,
        ]
    );
}

#[test]
fn summary_quantiles_are_gathered() {
    let mut p = HistSummaryParser::new("rpc");
    assert_eq!(p.parse_line(sample("rpc", vec![label("quantile", "0.5")], "10")), Ok(false));
    assert_eq!(p.parse_line(sample("rpc", vec![label("quantile", "0.9")], "20")), Ok(false));
    assert_eq!(p.parse_line(sample("rpc", vec![], "7")), Ok(false));
    assert_eq!(p.parse_line(sample("rpc", vec![label("le", "1")], "7")), Ok(false));
    assert_eq!(p.parse_line(sample("rpc_bucket", vec![label("quantile", "1")], "7")), Ok(false));
    assert_eq!(p.parse_line(sample("rpc_sum", vec![], "30")), Ok(false));
    assert_eq!(p.parse_line(sample("rpc_count", vec![label("quantile", "x"), label("a", "b")], "2")), Ok(true));
    assert_eq!(p.labels, vec![label("a", "b")]);
    assert_eq!(text_of(&p.render()), "  sum 30 count 2 (0.5 10, 0.9 20, ) a=b ");
}

#[test]
fn unknown_suffix_is_a_fault() {
    let mut p = HistSummaryParser::new("lat");
    assert_eq!(p.parse_line(sample("lat_total", vec![], "1")), Err(Fault::UnknownSuffix));
    assert_eq!(p.parse_line(sample("latency_sum", vec![], "1")), Err(Fault::UnknownSuffix));
    assert_eq!(p.parse_line(sample("other", vec![], "1")), Err(Fault::UnknownSuffix));
    assert_eq!(p, HistSummaryParser::new("lat"));
}
