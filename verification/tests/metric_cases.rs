use prometheus_http_exporter::extractor::Extractor;
use prometheus_http_exporter::finding::{Finding, Label};
use prometheus_http_exporter::json::{findings_of_json, Json};
use prometheus_http_exporter::measure::{metric_of_finding, metrics_of_findings};
use prometheus_http_exporter::metric::{Metric, Sample};
use prometheus_http_exporter::pattern::finding_of_match;
use prometheus_http_exporter::finding::RuleError;
use prometheus_http_exporter::render::{content_type, serve_metrics};
use prometheus_http_exporter::scrape::ScrapeError;
use prometheus_http_exporter::series::Metrics;
use prometheus_http_exporter::rule::Rule;
use prometheus_http_exporter::target::Target;
use prometheus_http_exporter::text::{push_decimal, same_text};

fn sample(text: &str) -> Sample {
    Sample::checked(text.to_string()).unwrap()
}

fn label(key: &str, value: &str) -> Label {
    Label { key: key.to_string(), value: value.to_string() }
}

fn text(s: &str) -> Option<String> {
    Some(s.to_string())
}

#[test]
fn metric_renders_name_labels_value_and_timestamp() {
    let metric = Metric::new("up", sample("1"), 1700000000123);
    assert_eq!(metric.render(), "up 1 1700000000123");
    let metric = metric.with_label("host", "h1");
    assert_eq!(metric.render(), "up{host=\"h1\"} 1 1700000000123");
    let metric = metric.with_label("zone", "eu-1").with_label("a b", "c");
    assert_eq!(metric.render(), "up{host=\"h1\",zone=\"eu_1\",a_b=\"c\"} 1 1700000000123");
    assert_eq!(Metric::new("t", sample("-0.5"), 0).render(), "t -0.5 0");
    assert_eq!(
        Metric::new("t", sample("NaN"), u128::MAX).render(),
        "t NaN 340282366920938463463374607431768211455"
    );
}

#[test]
fn setting_a_label_twice_replaces_its_value_in_place() {
    let metric = Metric::new("m", sample("1"), 1)
        .with_label("a", "1")
        .with_label("b", "2")
        .with_label("a", "3");
    let labels: Vec<Label> = metric.labels().clone();
    assert_eq!(labels, vec![label("a", "3"), label("b", "2")]);
    let metric = metric.with_label("a-b", "x").with_label("a_b", "y");
    assert_eq!(metric.labels().clone(), vec![label("a", "3"), label("b", "2"), label("a_b", "y")]);
}

#[test]
fn series_are_told_apart_by_name_and_labels_only() {
    let a = Metric::new("m", sample("1"), 1).with_label("x", "1").with_label("y", "2");
    let b = Metric::new("m", sample("9"), 7).with_label("y", "2").with_label("x", "1");
    assert!(a.same_series(&b));
    assert!(b.same_series(&a));
    assert!(!a.same_series(&Metric::new("n", sample("1"), 1).with_label("x", "1").with_label("y", "2")));
    assert!(!a.same_series(&Metric::new("m", sample("1"), 1).with_label("x", "1")));
    assert!(!a.same_series(&Metric::new("m", sample("1"), 1).with_label("x", "1").with_label("y", "3")));
    assert!(!Metric::new("m", sample("1"), 1).with_label("x", "1").same_series(&a));
}

#[test]
fn storing_the_same_series_again_replaces_it() {
    let mut series = Metrics::new();
    Metric::new("other", sample("0"), 1).insert(&mut series);
    Metric::new("m", sample("1"), 10).with_label("x", "1").with_label("y", "2").insert(&mut series);
    Metric::new("m", sample("5"), 10).with_label("x", "2").insert(&mut series);
    assert_eq!(series.len(), 3);
    Metric::new("m", sample("2"), 20).with_label("y", "2").with_label("x", "1").insert(&mut series);
    assert_eq!(series.len(), 3);
    let held = series.gauges();
    assert_eq!(held[0].name(), "other");
    assert_eq!(held[1].value().text(), "2");
    assert_eq!(held[1].timestamp(), Some(20));
    assert_eq!(held[2].value().text(), "5");
    assert!(!series.is_empty());
    assert!(Metrics::default().is_empty());
}

#[test]
fn findings_become_metrics_named_after_the_rule() {
    let findings = vec![
        Finding { reading: "1".to_string(), labels: vec![label("key", "a b")] },
        Finding { reading: "2".to_string(), labels: vec![label("key", "c")] },
        Finding { reading: "3".to_string(), labels: vec![label("key", "a_b")] },
    ];
    let samples = vec![Some(sample("1")), Some(sample("2")), Some(sample("3"))];
    let series = metrics_of_findings("r", &findings, &samples, 42).unwrap();
    let lines: Vec<String> = series.gauges().iter().map(|m| m.render()).collect();
    assert_eq!(lines, vec!["r{key=\"a_b\"} 3 42", "r{key=\"c\"} 2 42"]);

    let metric = metric_of_finding("r", &findings[0], sample("1.5"), 7);
    assert_eq!(metric.render(), "r{key=\"a_b\"} 1.5 7");
}

#[test]
fn a_reading_that_is_no_number_fails_the_rule() {
    let findings = vec![Finding::plain("1".to_string()), Finding::plain("x".to_string())];
    let samples = vec![Some(sample("1")), None];
    assert_eq!(metrics_of_findings("r", &findings, &samples, 1).unwrap_err(), RuleError::NotNumeric);
    let short = vec![Some(sample("1"))];
    assert_eq!(metrics_of_findings("r", &findings, &short, 1).unwrap_err(), RuleError::NotNumeric);
    let none: Vec<Finding> = Vec::new();
    assert!(metrics_of_findings("r", &none, &Vec::new(), 1).unwrap().is_empty());
}

#[test]
fn json_findings_on_values_written_by_hand() {
    let object = Json::Object(vec![
        ("a".to_string(), Json::Number("1".to_string())),
        ("b".to_string(), Json::Text("x".to_string())),
        ("c".to_string(), Json::Number("2.5".to_string())),
    ]);
    assert_eq!(
        findings_of_json(&object),
        vec![
            Finding { reading: "1".to_string(), labels: vec![label("key", "a")] },
            Finding { reading: "2.5".to_string(), labels: vec![label("key", "c")] },
        ]
    );
    let element = Json::Object(vec![
        ("host".to_string(), Json::Text("\"h\"1\"\"".to_string())),
        ("value".to_string(), Json::Number("2".to_string())),
        ("ok".to_string(), Json::Bool(false)),
        ("list".to_string(), Json::Array(Vec::new())),
        ("none".to_string(), Json::Null),
        ("value".to_string(), Json::Text("again".to_string())),
    ]);
    let array = Json::Array(vec![Json::Null, element, Json::Number("3".to_string())]);
    assert_eq!(
        findings_of_json(&array),
        vec![Finding {
            reading: "2".to_string(),
            labels: vec![label("host", "\"h\"1\"\""), label("ok", "false")],
        }]
    );
    assert_eq!(findings_of_json(&Json::Number("7".to_string())), vec![Finding::plain("7".to_string())]);
    assert!(findings_of_json(&Json::Text("7".to_string())).is_empty());
    assert!(findings_of_json(&Json::Bool(true)).is_empty());
    assert!(findings_of_json(&Json::Null).is_empty());
    assert_eq!(Json::Text("".to_string()).label_value(), text(""));
    assert_eq!(Json::Text("\"a\"".to_string()).label_value(), text("\"a\""));
    assert_eq!(Json::Number("1.5".to_string()).label_value(), text("1.5"));
    assert_eq!(Json::Bool(true).label_value(), text("true"));
    assert_eq!(Json::Null.label_value(), None);
}

#[test]
fn pattern_findings_on_matches_written_by_hand() {
    let names = vec![None, text("host"), text("value"), None, text("unit")];
    let groups = Some(vec![text("a 1 x"), text("a"), text("1"), text("x"), None]);
    assert_eq!(
        finding_of_match(&names, &groups),
        Ok(Finding { reading: "1".to_string(), labels: vec![label("host", "a")] })
    );
    let missing = Some(vec![text("a"), text("a"), None, None, None]);
    assert_eq!(finding_of_match(&names, &missing), Err(RuleError::MissingValue));
    assert_eq!(finding_of_match(&names, &Some(vec![text("a")])), Err(RuleError::MissingValue));
    assert_eq!(finding_of_match(&names, &None), Err(RuleError::NoMatch));

    let plain = vec![None, None, None];
    let both = Some(vec![text("1-2"), text("1"), text("2")]);
    assert_eq!(finding_of_match(&plain, &both), Ok(Finding::plain("1".to_string())));
    let second = Some(vec![text("-2"), None, text("2")]);
    assert_eq!(finding_of_match(&plain, &second), Ok(Finding::plain("-2".to_string())));
    assert_eq!(finding_of_match(&plain, &Some(Vec::new())), Err(RuleError::NoMatch));

    let named = vec![None, text("a"), None, text("b")];
    let all = Some(vec![text("1.2.3"), text("1"), None, text("3")]);
    assert_eq!(finding_of_match(&named, &all), Ok(Finding::plain("13".to_string())));
}

#[test]
fn exposition_of_targets_rules_and_metrics() {
    assert_eq!(serve_metrics(&Vec::new()), "");
    assert_eq!(content_type(), "text/plain; version=0.0.4");

    let mut first = Target::new(
        "first",
        "http://localhost/",
        Vec::new(),
        "",
        Extractor::Jq,
        vec![Rule::new("a", "."), Rule::new("b", "."), Rule::new("c", ".")],
    );
    let mut a = Metrics::new();
    Metric::new("a", sample("1"), 10).with_label("key", "x").insert(&mut a);
    Metric::new("a", sample("2.5"), 10).with_label("key", "y").insert(&mut a);
    let mut c = Metrics::new();
    Metric::new("c", sample("3"), 11).insert(&mut c);
    assert_eq!(first.store(vec![Ok(a), Ok(Metrics::new()), Ok(c)]), vec![None, None, None]);
    let second = Target::new("second", "http://localhost/", Vec::new(), "", Extractor::Regex, Vec::new());
    let targets = vec![first, second];
    let expected = "################### first ###################\n\n\
                    # TYPE a gauge\n\
                    a{key=\"x\"} 1 10\n\
                    a{key=\"y\"} 2.5 10\n\
                    \n\
                    \n\
                    # TYPE c gauge\n\
                    c 3 11\n\
                    \n\
                    \n\
                    ################### second ###################\n\n";
    let once = serve_metrics(&targets);
    assert_eq!(once, expected);
    assert_eq!(serve_metrics(&targets), once);
}

#[test]
fn text_helpers() {
    assert!(same_text("abc", "abc"));
    assert!(!same_text("abc", "abd"));
    assert!(!same_text("abc", "ab"));
    let mut s = String::from("n=");
    push_decimal(&mut s, 0);
    push_decimal(&mut s, 9);
    push_decimal(&mut s, 10);
    push_decimal(&mut s, 1234567890);
    assert_eq!(s, "n=09101234567890");
}

#[test]
fn errors_in_words() {
    assert_eq!(RuleError::NotCompiled.describe(), "The rule was not set up");
    assert_eq!(RuleError::NotQueried.describe(), "The query of the rule was not run");
    assert_eq!(RuleError::Query("no output".to_string()).describe(), "JQ Error: no output");
    assert_eq!(RuleError::NoMatch.describe(), "Regex didn't match anything");
    assert_eq!(
        RuleError::MissingValue.describe(),
        "Named group 'value' exists, but didn't match anything"
    );
    assert_eq!(RuleError::NotNumeric.describe(), "The result could not be parsed as a number");
    assert_eq!(ScrapeError::Request("timed out".to_string()).describe(), "requesting: timed out");
    assert_eq!(ScrapeError::Status(503).describe(), "status code: 503");
    assert_eq!(ScrapeError::Body.describe(), "parsing response as string");
}

#[test]
fn sample_text_is_the_decimal_form_of_a_float() {
    for text in ["0", "1", "42", "1.5", "-0", "-0.25", "007", "100000000000000000000", "NaN", "inf", "-inf", "0.0000001"] {
        assert!(Sample::is_valid(text), "{}", text);
        assert_eq!(Sample::checked(text.to_string()).unwrap().text(), text);
    }
    for text in [
        "", "-", ".", "1.", ".5", "1..5", "1.2.3", "1e5", "+1", " 1", "1 ", "1\n", "--1", "-NaN", "nan",
        "Inf", "infinity", "1,5", "0x10", "1-", "-.5", "inf1", "NaNa", "in",
    ] {
        assert!(!Sample::is_valid(text), "{:?}", text);
        assert!(Sample::checked(text.to_string()).is_none());
    }
    for number in [0.0, -0.0, 1.0, 0.1, 1e21, 1e-7, 123456.789, f64::MAX, f64::MIN_POSITIVE, f64::NAN, f64::INFINITY, f64::NEG_INFINITY] {
        assert!(Sample::is_valid(&number.to_string()), "{}", number);
    }
}
