use prometheus_http_exporter::extractor::Extractor;
use prometheus_http_exporter::finding::{Finding, RuleError};
use prometheus_http_exporter::metric::{Metric, Sample};
use prometheus_http_exporter::render::serve_metrics;
use prometheus_http_exporter::json::Json;
use prometheus_http_exporter::query::Queried;
use prometheus_http_exporter::scrape::{
    measure_response, request_headers, response_text, scrapable_text, try_scrape_target, Fetched,
    ScrapeError,
};
use prometheus_http_exporter::rule::Rule;
use prometheus_http_exporter::target::{names_are_valid, Target};

fn read(finding: &Finding) -> Option<Sample> {
    let number: f64 = finding.reading.parse().ok()?;
    Sample::checked(number.to_string())
}

fn json_of(value: &serde_json::Value) -> Json {
    match value {
        serde_json::Value::Null => Json::Null,
        serde_json::Value::Bool(b) => Json::Bool(*b),
        serde_json::Value::Number(n) => Json::Number(n.to_string()),
        serde_json::Value::String(s) => Json::Text(s.clone()),
        serde_json::Value::Array(items) => Json::Array(items.iter().map(json_of).collect()),
        serde_json::Value::Object(fields) => {
            Json::Object(fields.iter().map(|(k, v)| (k.clone(), json_of(v))).collect())
        }
    }
}

fn run(target: &Target, text: &str) -> Vec<Queried> {
    target
        .rules()
        .iter()
        .map(|rule| match rule.query() {
            None => Queried::NotRun,
            Some(query) => match query.filter().filter_json_str(text) {
                Ok(value) => Queried::Value(json_of(&value)),
                Err(error) => Queried::Failed(error.to_string()),
            },
        })
        .collect()
}

fn scrape(target: &mut Target, fetched: Fetched, now: u128) -> Result<Vec<Option<RuleError>>, ScrapeError> {
    let queried = match scrapable_text(&fetched) {
        Some(text) => run(target, text),
        None => Vec::new(),
    };
    try_scrape_target(target, fetched, &queried, &read, now)
}

fn measure(target: &Target, fetched: Fetched, now: u128) -> Result<Vec<Result<prometheus_http_exporter::series::Metrics, RuleError>>, ScrapeError> {
    let queried = match scrapable_text(&fetched) {
        Some(text) => run(target, text),
        None => Vec::new(),
    };
    measure_response(target, fetched, &queried, &read, now)
}

fn findings(target: &Target, text: &str) -> Vec<Result<Vec<Finding>, RuleError>> {
    target.findings(text, &run(target, text))
}

fn target(kind: Extractor, rules: &[(&str, &str)]) -> Target {
    let rules = rules.iter().map(|(name, extract)| Rule::new(name, extract)).collect();
    let mut target = Target::new("t", "http://localhost/", Vec::new(), "every 5 seconds", kind, rules);
    target.setup().unwrap();
    target
}

fn ok(text: &str) -> Fetched {
    Fetched::Response { status: 200, body: Some(text.to_string()) }
}

fn number(metric: &Metric) -> f64 {
    metric.value().text().parse().unwrap()
}

fn labels(metric: &Metric) -> Vec<(String, String)> {
    metric.labels().iter().map(|l| (l.key.clone(), l.value.clone())).collect()
}

fn pair(key: &str, value: &str) -> (String, String) {
    (key.to_string(), value.to_string())
}

#[test]
fn query_object_gives_one_metric_for_each_numeric_field() {
    let mut t = target(Extractor::Jq, &[("r", ".")]);
    let reports = scrape(&mut t, ok(r#"{"a": 1, "b": "x"}"#), 1000).unwrap();
    assert_eq!(reports, vec![None]);
    let results = t.rules()[0].results().gauges();
    assert_eq!(results.len(), 1);
    assert_eq!(results[0].name(), "r");
    assert_eq!(number(&results[0]), 1.0);
    assert_eq!(results[0].value().text(), "1");
    assert_eq!(labels(&results[0]), vec![pair("key", "a")]);
    assert_eq!(results[0].timestamp(), Some(1000));
}

#[test]
fn query_array_gives_one_metric_for_each_element_with_a_numeric_value() {
    let mut t = target(Extractor::Jq, &[("r", ".")]);
    let body = r#"[{"value": 2, "host": "h1"}, {"value": 3, "host": "h2"}]"#;
    let reports = scrape(&mut t, ok(body), 5).unwrap();
    assert_eq!(reports, vec![None]);
    let results = t.rules()[0].results().gauges();
    assert_eq!(results.len(), 2);
    assert_eq!(results[0].name(), "r");
    assert_eq!(results[1].name(), "r");
    assert_eq!(number(&results[0]), 2.0);
    assert_eq!(number(&results[1]), 3.0);
    assert_eq!(labels(&results[0]), vec![pair("host", "h1")]);
    assert_eq!(labels(&results[1]), vec![pair("host", "h2")]);
}

#[test]
fn query_array_skips_elements_without_a_numeric_value() {
    let mut t = target(Extractor::Jq, &[("r", ".items")]);
    let body = r#"{"items": [{"value": "2"}, 7, {"other": 1}, {"value": 4.5, "up": true, "n": 3, "nested": {"a": 1}, "none": null}]}"#;
    scrape(&mut t, ok(body), 5).unwrap();
    let results = t.rules()[0].results().gauges();
    assert_eq!(results.len(), 1);
    assert_eq!(number(&results[0]), 4.5);
    assert_eq!(labels(&results[0]), vec![pair("n", "3"), pair("up", "true")]);
}

#[test]
fn query_number_gives_one_metric_without_labels() {
    let mut t = target(Extractor::Jq, &[("load", ".load")]);
    scrape(&mut t, ok(r#"{"load": 0.25}"#), 5).unwrap();
    let results = t.rules()[0].results().gauges();
    assert_eq!(results.len(), 1);
    assert_eq!(results[0].value().text(), "0.25");
    assert!(labels(&results[0]).is_empty());
}

#[test]
fn query_other_shapes_give_nothing_and_no_error() {
    for program in [".s", ".b", ".n", ".e"] {
        let mut t = target(Extractor::Jq, &[("r", program)]);
        let body = r#"{"s": "text", "b": true, "n": null, "e": []}"#;
        let reports = scrape(&mut t, ok(body), 5).unwrap();
        assert_eq!(reports, vec![None]);
        assert!(t.rules()[0].results().is_empty());
    }
}

#[test]
fn query_label_values_are_filtered() {
    let mut t = target(Extractor::Jq, &[("r", ".")]);
    let body = r#"[{"value": 1, "path": "/var/log", "quoted": "say \"hi\"", "empty": ""}]"#;
    scrape(&mut t, ok(body), 5).unwrap();
    let results = t.rules()[0].results().gauges();
    assert_eq!(
        labels(&results[0]),
        vec![pair("empty", ""), pair("path", "_var_log"), pair("quoted", "say__hi_")]
    );
}

#[test]
fn query_on_text_that_is_no_json_is_an_error_of_the_rule() {
    let mut t = target(Extractor::Jq, &[("r", ".")]);
    scrape(&mut t, ok("7"), 5).unwrap();
    let reports = scrape(&mut t, ok("not json"), 6).unwrap();
    assert!(matches!(reports[0], Some(RuleError::Query(_))));
    let results = t.rules()[0].results().gauges();
    assert_eq!(results.len(), 1);
    assert_eq!(results[0].timestamp(), Some(5));
}

#[test]
fn query_that_fails_in_its_run_is_an_error_of_the_rule() {
    let t = target(Extractor::Jq, &[("r", ".a.b"), ("empty", "empty")]);
    let found = findings(&t, "[1]");
    assert!(matches!(found[0], Err(RuleError::Query(_))));
    assert!(matches!(found[1], Err(RuleError::Query(_))));
}

#[test]
fn pattern_with_a_value_group() {
    let mut t = target(Extractor::Regex, &[("lat", r"(?P<value>\d+)ms")]);
    let reports = scrape(&mut t, ok("latency: 42ms"), 9).unwrap();
    assert_eq!(reports, vec![None]);
    let results = t.rules()[0].results().gauges();
    assert_eq!(results.len(), 1);
    assert_eq!(results[0].name(), "lat");
    assert_eq!(number(&results[0]), 42.0);
    assert!(labels(&results[0]).is_empty());
}

#[test]
fn pattern_without_named_groups_reads_group_one() {
    let mut t = target(Extractor::Regex, &[("count", r"(\d+)")]);
    scrape(&mut t, ok("count=7"), 9).unwrap();
    let results = t.rules()[0].results().gauges();
    assert_eq!(results.len(), 1);
    assert_eq!(results[0].name(), "count");
    assert_eq!(number(&results[0]), 7.0);
    assert!(labels(&results[0]).is_empty());
}

#[test]
fn pattern_without_groups_reads_the_whole_match() {
    let t = target(Extractor::Regex, &[("n", r"\d+\.\d+"), ("m", r"(x)?(\d+)")]);
    let found = findings(&t, "load 1.50 now");
    assert_eq!(found[0], Ok(vec![Finding::plain("1.50".to_string())]));
    assert_eq!(found[1], Ok(vec![Finding::plain("1".to_string())]));
    let mut t = t;
    scrape(&mut t, ok("load 1.50 now"), 9).unwrap();
    assert_eq!(t.rules()[0].results().gauges()[0].value().text(), "1.5");
}

#[test]
fn pattern_with_other_named_groups_labels_the_metric() {
    let mut t = target(
        Extractor::Regex,
        &[("temp", r"(?P<room>\w+)(?: \[(?P<floor>\d)\])?: (?P<value>[\d.]+)(\w)")],
    );
    scrape(&mut t, ok("kitchen [2]: 21.5C"), 9).unwrap();
    let results = t.rules()[0].results().gauges();
    assert_eq!(number(&results[0]), 21.5);
    assert_eq!(labels(&results[0]), vec![pair("room", "kitchen"), pair("floor", "2")]);
    scrape(&mut t, ok("living-room: 19C"), 10).unwrap();
    let results = t.rules()[0].results().gauges();
    assert_eq!(results.len(), 1);
    assert_eq!(number(&results[0]), 19.0);
    assert_eq!(labels(&results[0]), vec![pair("room", "room")]);
}

#[test]
fn pattern_with_named_groups_but_no_value_joins_the_groups() {
    let t = target(Extractor::Regex, &[("v", r"(?P<major>\d+)\.(\d+)?(?:\.(?P<patch>\d+))?")]);
    assert_eq!(findings(&t, "version 1.20.3")[0], Ok(vec![Finding::plain("1203".to_string())]));
    assert_eq!(findings(&t, "version 4.")[0], Ok(vec![Finding::plain("4".to_string())]));
}

#[test]
fn pattern_errors() {
    let mut t = target(
        Extractor::Regex,
        &[("a", r"(?P<value>\d+)"), ("b", r"x(?P<value>\d+)?"), ("c", r"(\w+)"), ("d", r"(?P<n>z)?y")],
    );
    let reports = scrape(&mut t, ok("xy"), 9).unwrap();
    assert_eq!(
        reports,
        vec![
            Some(RuleError::NoMatch),
            Some(RuleError::MissingValue),
            Some(RuleError::NotNumeric),
            Some(RuleError::NotNumeric),
        ]
    );
    for rule in t.rules() {
        assert!(rule.results().is_empty());
    }
}

#[test]
fn rule_that_was_not_compiled_is_an_error_of_the_rule() {
    let rules = vec![Rule::new("r", ".")];
    let mut t = Target::new("t", "http://localhost/", Vec::new(), "", Extractor::Jq, rules);
    assert!(!t.rules()[0].is_compiled());
    let reports = scrape(&mut t, ok("1"), 9).unwrap();
    assert_eq!(reports, vec![Some(RuleError::NotCompiled)]);
}

#[test]
fn query_that_was_not_run_is_an_error_of_the_rule() {
    let mut t = target(Extractor::Jq, &[("a", "."), ("b", ".")]);
    let queried = vec![Queried::Value(Json::Number("1".to_string()))];
    let reports = try_scrape_target(&mut t, ok("1"), &queried, &read, 9).unwrap();
    assert_eq!(reports, vec![None, Some(RuleError::NotQueried)]);
    assert_eq!(t.rules()[0].results().len(), 1);
    let failed = vec![Queried::Failed("no output".to_string()), Queried::NotRun];
    let found = t.findings("1", &failed);
    assert_eq!(found[0], Err(RuleError::Query("no output".to_string())));
    assert_eq!(found[1], Err(RuleError::NotQueried));
}

#[test]
fn pattern_rules_do_not_read_what_a_query_gave() {
    let mut t = target(Extractor::Regex, &[("n", r"(\d+)")]);
    assert!(t.rules()[0].query().is_none());
    let queried = vec![Queried::Value(Json::Number("1".to_string()))];
    try_scrape_target(&mut t, ok("n=5"), &queried, &read, 9).unwrap();
    assert_eq!(t.rules()[0].results().gauges()[0].value().text(), "5");
}

#[test]
fn compiled_query_keeps_its_program() {
    let t = target(Extractor::Jq, &[("a", ".a | .b")]);
    assert_eq!(t.rules()[0].query().unwrap().program(), ".a | .b");
    let not_set_up = Rule::new("r", ".");
    assert!(not_set_up.query().is_none());
}

#[test]
fn setup_fails_on_the_first_instruction_that_does_not_compile() {
    let rules = vec![Rule::new("a", r"\d+"), Rule::new("b", r"(\d+"), Rule::new("c", r"[")];
    let mut t = Target::new("t", "http://localhost/", Vec::new(), "", Extractor::Regex, rules);
    let error = t.setup().unwrap_err();
    assert_eq!(error.instruction, r"(\d+");
    assert!(!error.message.is_empty());
    assert!(t.rules()[0].is_compiled());
    assert!(!t.rules()[1].is_compiled());

    let rules = vec![Rule::new("a", ".a | ")];
    let mut t = Target::new("t", "http://localhost/", Vec::new(), "", Extractor::Jq, rules);
    let error = t.setup().unwrap_err();
    assert_eq!(error.instruction, ".a | ");
    assert!(!error.message.is_empty());
}

#[test]
fn failed_rule_does_not_stop_the_others() {
    let mut t = target(Extractor::Regex, &[("a", r"a=(\d+)"), ("b", r"b=(\d+)"), ("c", r"c=(\d+)")]);
    let reports = scrape(&mut t, ok("a=1 c=3"), 9).unwrap();
    assert_eq!(reports, vec![None, Some(RuleError::NoMatch), None]);
    assert_eq!(t.rules()[0].results().len(), 1);
    assert_eq!(t.rules()[1].results().len(), 0);
    assert_eq!(number(&t.rules()[2].results().gauges()[0]), 3.0);
}

#[test]
fn scrape_without_results_keeps_what_a_rule_held() {
    let mut t = target(Extractor::Jq, &[("r", ".")]);
    scrape(&mut t, ok(r#"{"a": 1, "b": 2}"#), 1).unwrap();
    assert_eq!(t.rules()[0].results().len(), 2);

    let reports = scrape(&mut t, ok(r#"{"a": "none"}"#), 2).unwrap();
    assert_eq!(reports, vec![None]);
    let results = t.rules()[0].results().gauges();
    assert_eq!(results.len(), 2);
    assert_eq!(results[0].timestamp(), Some(1));

    scrape(&mut t, ok(r#"{"b": 5, "c": 6}"#), 3).unwrap();
    let results = t.rules()[0].results().gauges();
    assert_eq!(results.len(), 2);
    assert_eq!(labels(&results[0]), vec![pair("key", "b")]);
    assert_eq!(labels(&results[1]), vec![pair("key", "c")]);
    assert_eq!(number(&results[0]), 5.0);
    assert_eq!(results[0].timestamp(), Some(3));
}

#[test]
fn failed_fetch_leaves_every_rule_and_is_an_error_of_the_scrape() {
    let mut t = target(Extractor::Jq, &[("r", "."), ("s", ".a")]);
    scrape(&mut t, ok(r#"{"a": 1}"#), 1).unwrap();
    let before = serve_metrics(&vec![t]);

    let mut t = target(Extractor::Jq, &[("r", "."), ("s", ".a")]);
    scrape(&mut t, ok(r#"{"a": 1}"#), 1).unwrap();
    let failed = Fetched::Response { status: 500, body: Some(r#"{"a": 2}"#.to_string()) };
    assert_eq!(scrape(&mut t, failed, 2), Err(ScrapeError::Status(500)));
    let gone = Fetched::Failed("connection refused".to_string());
    assert_eq!(
        scrape(&mut t, gone, 3),
        Err(ScrapeError::Request("connection refused".to_string()))
    );
    let unreadable = Fetched::Response { status: 200, body: None };
    assert_eq!(scrape(&mut t, unreadable, 4), Err(ScrapeError::Body));
    assert_eq!(serve_metrics(&vec![t]), before);
}

#[test]
fn only_status_200_to_299_is_success() {
    for status in [0, 100, 199, 300, 304, 404, 500, 65535] {
        let fetched = Fetched::Response { status, body: Some("1".to_string()) };
        assert_eq!(response_text(fetched), Err(ScrapeError::Status(status)));
    }
    for status in [200, 204, 299] {
        let fetched = Fetched::Response { status, body: Some("1".to_string()) };
        assert_eq!(response_text(fetched), Ok("1".to_string()));
    }
    let fetched = Fetched::Response { status: 404, body: None };
    assert_eq!(response_text(fetched), Err(ScrapeError::Status(404)));
}

#[test]
fn measuring_stores_nothing_until_the_results_are_stored() {
    let mut t = target(Extractor::Regex, &[("a", r"a=(\d+)"), ("b", r"b=(\d+)")]);
    let results = measure(&t, ok("a=1"), 4).unwrap();
    assert_eq!(results.len(), 2);
    assert!(t.rules()[0].results().is_empty());
    assert!(matches!(results[1], Err(RuleError::NoMatch)));
    let reports = t.store(results);
    assert_eq!(reports, vec![None, Some(RuleError::NoMatch)]);
    assert_eq!(t.rules()[0].results().len(), 1);
    assert_eq!(
        measure(&t, Fetched::Response { status: 503, body: None }, 4).unwrap_err(),
        ScrapeError::Status(503)
    );
    assert_eq!(t.store(Vec::new()), vec![None, None]);
    assert_eq!(t.rules()[0].results().len(), 1);
}

#[test]
fn request_headers_add_the_agent_unless_the_target_gives_one() {
    let none: Vec<(String, String)> = Vec::new();
    assert_eq!(request_headers(&none, "exporter/1"), vec![pair("User-Agent", "exporter/1")]);
    let some = vec![pair("Accept", "text/plain"), pair("X-Token", "t")];
    assert_eq!(
        request_headers(&some, "exporter/1"),
        vec![pair("User-Agent", "exporter/1"), pair("Accept", "text/plain"), pair("X-Token", "t")]
    );
    let own = vec![pair("Accept", "text/plain"), pair("User-Agent", "mine")];
    assert_eq!(request_headers(&own, "exporter/1"), own);
    let lower = vec![pair("user-agent", "mine")];
    assert_eq!(
        request_headers(&lower, "exporter/1"),
        vec![pair("User-Agent", "exporter/1"), pair("user-agent", "mine")]
    );
}

#[test]
fn target_names_are_unique_not_empty_and_without_line_feeds() {
    let named = |name: &str| Target::new(name, "http://localhost/", Vec::new(), "", Extractor::Jq, Vec::new());
    assert!(names_are_valid(&Vec::new()));
    assert!(names_are_valid(&vec![named("a"), named("b"), named("a b")]));
    assert!(!names_are_valid(&vec![named("a"), named("b"), named("a")]));
    assert!(!names_are_valid(&vec![named("a"), named("")]));
    assert!(!names_are_valid(&vec![named("a\nb")]));
    assert!(!names_are_valid(&vec![named("\n")]));
}
