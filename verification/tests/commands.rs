use ores_otel_cli::commands::{health_json_body, status_json_body, status_text_line};

#[test]
fn health_body_is_a_json_object() {
    assert_eq!(
        health_json_body("http://127.0.0.1:8080"),
        "{\"api_base\":\"http://127.0.0.1:8080\",\"ok\":true}"
    );
}

#[test]
fn status_body_is_a_json_object() {
    assert_eq!(
        status_json_body("http://x"),
        "{\"api_base\":\"http://x\",\"service\":\"ores-otel\"}"
    );
}

#[test]
fn api_base_is_escaped_in_json() {
    assert_eq!(
        health_json_body("a\"b\\c\nd\u{1}\u{e9}"),
        "{\"api_base\":\"a\\\"b\\\\c\\nd\\u0001\u{e9}\",\"ok\":true}"
    );
    assert_eq!(
        status_json_body("\t\r\u{8}\u{c}\u{1f}/"),
        "{\"api_base\":\"\\t\\r\\b\\f\\u001f/\",\"service\":\"ores-otel\"}"
    );
}

#[test]
fn status_line_names_the_api_base() {
    assert_eq!(status_text_line("http://x"), "ores-otel @ http://x");
}
