//! Turns fetched text into gauge metrics and renders them for a collector.
//!
//! A target is a URL with rules. A scrape hands the answer to a request to
//! [`try_scrape_target`]: each rule finds its measurements in the text, by
//! its regular expression or in what the run of its jq program gave, and
//! holds the series that it found until a later scrape finds others.
//! [`serve_metrics`] renders what the rules hold.
//!
//! The library fetches nothing, reads no clock, runs no jq program and does
//! no floating-point arithmetic. The program around it sends the request,
//! runs the compiled queries on the answer, says what time it is, and reads
//! the number of each finding.

pub mod extractor;
pub mod finding;
pub mod json;
pub mod measure;
pub mod metric;
pub mod pattern;
pub mod query;
pub mod render;
pub mod rule;
pub mod sanitize;
pub mod scrape;
pub mod series;
pub mod settings;
pub mod target;
pub mod text;

pub use extractor::{compile, CompileError, CompiledExtractor, Extractor};
pub use finding::{Finding, Label, RuleError};
pub use json::Json;
pub use metric::{Metric, Sample};
pub use query::{Queried, Query};
pub use render::serve_metrics;
pub use sanitize::sanitize_for_prometheus;
pub use scrape::{
    measure_response, request_headers, scrapable_text, try_scrape_target, Fetched, ScrapeError,
};
pub use series::Metrics;
pub use settings::{default_address, default_log_level};
pub use rule::Rule;
pub use target::{names_are_valid, Target};
