use prometheus_http_exporter::sanitize::sanitize_for_prometheus;
use prometheus_http_exporter::settings::{default_address, default_log_level};

#[test]
fn sanitize_keeps_letters_digits_underscore_and_dot() {
    assert_eq!(sanitize_for_prometheus("abc_XYZ.019"), "abc_XYZ.019");
}

#[test]
fn sanitize_replaces_everything_else() {
    assert_eq!(sanitize_for_prometheus("a-b c/d\"e\n"), "a_b_c_d_e_");
    assert_eq!(sanitize_for_prometheus("héllo"), "h_llo");
    assert_eq!(sanitize_for_prometheus(""), "");
}

#[test]
fn sanitize_twice_is_sanitize_once() {
    for text in ["a-b", "http://host:80/path?q=1", "ünï", "already_fine.1", "{}=\","] {
        let once = sanitize_for_prometheus(text);
        assert_eq!(sanitize_for_prometheus(&once), once);
        assert!(once.chars().all(|c| c.is_ascii_alphanumeric() || c == '_' || c == '.'));
        assert_eq!(once.chars().count(), text.chars().count());
    }
}

#[test]
fn defaults() {
    assert_eq!(default_log_level(), "info");
    assert_eq!(default_address(), "0.0.0.0:3000");
}
