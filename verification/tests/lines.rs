use promview::grammar::{chars_of, is_metricname, is_number_text, same_text, scan, CharClass};
use promview::line::{parse_help, parse_metric, parse_type, Label, MetricType, ParseError, Sample};

fn label(key: &str, value: &str) -> Label {
    Label { key: key.to_string(), value: value.to_string() }
}

#[test]
fn identifier_characters() {
    for c in ['a', 'z', 'A', 'Z', '0', '9', '_'] {
        assert!(is_metricname(c));
    }
    for c in [' ', '-', '{', '"', '#', '.', '\u{141}', 'é'] {
        assert!(!is_metricname(c));
    }
}

#[test]
fn scan_stops_at_first_outsider() {
    let s: Vec<char> = "abc_1 x".chars().collect();
    assert_eq!(scan(&s, 0, CharClass::Identifier), 5);
    assert_eq!(scan(&s, 5, CharClass::Identifier), 5);
    assert_eq!(scan(&s, 6, CharClass::Identifier), 7);
    assert_eq!(scan(&s, 0, CharClass::Letter), 3);
    assert_eq!(scan(&s, 4, CharClass::Digit), 5);
    assert_eq!(scan(&s, 0, CharClass::Unquoted), 7);
    assert_eq!(scan(&s, 7, CharClass::Digit), 7);
}

#[test]
fn chars_and_text_equality() {
    assert_eq!(chars_of("aé\"b"), vec!['a', 'é', '"', 'b']);
    assert_eq!(chars_of(""), Vec::<char>::new());
    assert!(same_text("le", "le"));
    assert!(!same_text("le", "lee"));
    assert!(!same_text("", "x"));
}

#[test]
fn numbers_accepted() {
    for text in ["5", "4.2", "0.1", "1.", ".5", "+3", "-3.25", "1e5", "1E5", "1e+5", "2.5e-3", "11e-1", "123E-02", "007"] {
        assert!(is_number_text(text), "{}", text);
    }
}

#[test]
fn numbers_refused() {
    for text in ["", "+", "-", ".", "e5", "1e", "1e+", "1.5abc", "1 ", " 1", "1..2", "1.2.3", "+-1", "1e5.0", "abc", "NaN", "inf", "0x10", "1,5", "--1", ".e1"] {
        assert!(!is_number_text(text), "{}", text);
    }
}

#[test]
fn help_line_taken_apart() {
    assert_eq!(
        parse_help("# HELP req_total Total requests"),
        Ok(("req_total".to_string(), "Total requests".to_string()))
    );
    assert_eq!(parse_help("# HELP a "), Ok(("a".to_string(), "".to_string())));
    assert_eq!(
        parse_help("# HELP x9 say \"hi\" # HELP twice  "),
        Ok(("x9".to_string(), "say \"hi\" # HELP twice  ".to_string()))
    );
    assert_eq!(
        parse_help("# HELP lat Dauer in µs"),
        Ok(("lat".to_string(), "Dauer in µs".to_string()))
    );
}

#[test]
fn help_line_refused() {
    for line in [
        "",
        "# HELP",
        "# HELP ",
        "# HELP name",
        "# HELP  name text",
        "#HELP name text",
        "# help name text",
        "# TYPE name gauge",
        " # HELP name text",
        "# HELP na-me text",
        "# HELP name text\n",
        "# HELP name te\rxt",
        "# HELP name text\r\n",
        "req_total 5",
    ] {
        assert_eq!(parse_help(line), Err(ParseError::Malformed), "{:?}", line);
    }
}

#[test]
fn type_line_taken_apart() {
    assert_eq!(parse_type("# TYPE a counter"), Ok(("a".to_string(), MetricType::Counter)));
    assert_eq!(parse_type("# TYPE a_b gauge"), Ok(("a_b".to_string(), MetricType::Gauge)));
    assert_eq!(parse_type("# TYPE lat histogram"), Ok(("lat".to_string(), MetricType::Histogram)));
    assert_eq!(parse_type("# TYPE q1 summary"), Ok(("q1".to_string(), MetricType::Summary)));
}

#[test]
fn type_line_unknown_type() {
    for line in ["# TYPE a untyped", "# TYPE a Counter", "# TYPE a gauges", "# TYPE a x"] {
        assert_eq!(parse_type(line), Err(ParseError::UnknownType), "{:?}", line);
    }
}

#[test]
fn type_line_refused() {
    for line in [
        "",
        "# TYPE",
        "# TYPE a",
        "# TYPE a ",
        "# TYPE a gauge ",
        "# TYPE a gauge1",
        "# TYPE a  gauge",
        "# TYPE  a gauge",
        "# HELP a gauge",
        "# TYPE a-b gauge",
        "# TYPE a gauge\n",
    ] {
        assert_eq!(parse_type(line), Err(ParseError::Malformed), "{:?}", line);
    }
}

#[test]
fn type_words() {
    assert_eq!(MetricType::Counter.word(), "counter");
    assert_eq!(MetricType::Gauge.word(), "gauge");
    assert_eq!(MetricType::Histogram.word(), "histogram");
    assert_eq!(MetricType::Summary.word(), "summary");
}

#[test]
fn sample_without_labels() {
    assert_eq!(
        parse_metric("lat_sum 4.2"),
        Ok(Sample { name: "lat_sum".to_string(), labels: vec![], value: "4.2".to_string() })
    );
    assert_eq!(
        parse_metric("x 1e-3"),
        Ok(Sample { name: "x".to_string(), labels: vec![], value: "1e-3".to_string() })
    );
}

#[test]
fn sample_with_labels_in_order() {
    assert_eq!(
        parse_metric("req_total{method=\"GET\"} 5"),
        Ok(Sample {
            name: "req_total".to_string(),
            labels: vec![label("method", "GET")],
            value: "5".to_string(),
        })
    );
    assert_eq!(
        parse_metric("h_bucket{job=\"a b\",le=\"+Inf\",z=\"\",path=\"/x,y={}\"} -0.5E+2"),
        Ok(Sample {
            name: "h_bucket".to_string(),
            labels: vec![
                label("job", "a b"),
                label("le", "+Inf"),
                label("z", ""),
                label("path", "/x,y={}"),
            ],
            value: "-0.5E+2".to_string(),
        })
    );
    assert_eq!(
        parse_metric("m{k=\"ä\\n\"} 1"),
        Ok(Sample {
            name: "m".to_string(),
            labels: vec![label("k", "ä\\n")],
            value: "1".to_string(),
        })
    );
}

#[test]
fn sample_refused() {
    for line in [
        "",
        " x 1",
        "x",
        "x ",
        "x  1",
        "x 1 ",
        "x 1.5abc",
        "x{} 1",
        "x{a=\"b\" 1",
        "x{a=\"b} 1",
        "x{a=b} 1",
        "x{a=\"b\",} 1",
        "x{,a=\"b\"} 1",
        "x{a=\"b\"}1",
        "x{a=\"b\"}  1",
        "x{a=\"b\"c=\"d\"} 1",
        "x{a=\"b\", c=\"d\"} 1",
        "x{=\"b\"} 1",
        "x{a-b=\"c\"} 1",
        "x{a=\"b\"} NaN",
        "x{a=\"b\"}",
        "# HELP x text",
        "# TYPE x gauge",
        "-x 1",
    ] {
        assert_eq!(parse_metric(line), Err(ParseError::Malformed), "{:?}", line);
    }
}
