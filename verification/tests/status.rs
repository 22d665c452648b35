use castzura::app_state::{StreamEvent, StreamFlags};
use castzura::html::html_escape;
use castzura::log_buffer::{default_filter, LogBuffer, MessageVisitor};
use castzura::net::IpAddr;
use castzura::routes::health::health_handler;
use castzura::routes::status::{bool_label, status_handler, StatusPage};
use castzura::routes::status_raw::{report_fields, status_raw_handler, FieldValue, RawStatus};
use castzura::routes::ws::{ws_handler, StreamStart};
use castzura::text::{characters, join_strings, push_decimal, replace};

const LOCAL: IpAddr = IpAddr::V4(0x7f00_0001);
const REMOTE: IpAddr = IpAddr::V4(0x0a00_0001);

fn log_of(messages: &[&str]) -> LogBuffer {
    let mut log = LogBuffer::new();
    for message in messages {
        let mut visitor = MessageVisitor::new();
        visitor.record_str("message", message);
        log.on_event("castzura", "INFO", &visitor);
    }
    log
}

fn page(template: &str, whitelist: &[&str], clients: &[&str], log: &LogBuffer) -> String {
    let flags = StreamFlags { pw_running: true, ffmpeg_running: false };
    let whitelist: Vec<String> = whitelist.iter().map(|s| s.to_string()).collect();
    let clients: Vec<String> = clients.iter().map(|s| s.to_string()).collect();
    match status_handler(LOCAL, template, whitelist, clients, flags, log) {
        StatusPage::Html(html) => html,
        StatusPage::Forbidden => panic!("forbidden"),
    }
}

#[test]
fn escapes_markup() {
    assert_eq!(html_escape("a < b && b > c"), "a &lt; b &amp;&amp; b &gt; c");
    assert_eq!(html_escape("&lt;"), "&amp;lt;");
    assert_eq!(html_escape(""), "");
    assert_eq!(html_escape("plain \"text\" \u{e9}"), "plain \"text\" \u{e9}");
}

#[test]
fn escaping_is_replacing_in_turn() {
    for s in ["<&>", "&amp;&lt;", "x<y>&z&&", "\u{1f600}<"] {
        let turn = s.replace('&', "&amp;").replace('<', "&lt;").replace('>', "&gt;");
        assert_eq!(html_escape(s), turn);
    }
}

#[test]
fn different_texts_are_escaped_differently() {
    let texts = ["", "&", "<", ">", "&amp;", "&lt;", "&gt;", "&amp;lt;", "a&b"];
    for a in texts {
        for b in texts {
            assert_eq!(a == b, html_escape(a) == html_escape(b));
        }
    }
}

#[test]
fn replaces_like_the_standard_library() {
    let cases = [
        ("a{{x}}b{{x}}c", "{{x}}", "1"),
        ("aaaa", "aa", "b"),
        ("aaaaa", "aa", "a"),
        ("{{{x}}", "{{x}}", "1"),
        ("none here", "{{x}}", "1"),
        ("", "x", "y"),
        ("\u{e9}x\u{e9}", "\u{e9}", "ee"),
        ("x", "x", ""),
    ];
    for (text, from, to) in cases {
        assert_eq!(replace(text, from, to), text.replace(from, to));
    }
}

#[test]
fn joins_with_a_separator() {
    assert_eq!(join_strings(&vec![], ", "), "");
    assert_eq!(join_strings(&vec!["a".to_string()], ", "), "a");
    let parts = vec!["a".to_string(), "".to_string(), "c".to_string()];
    assert_eq!(join_strings(&parts, ", "), "a, , c");
}

#[test]
fn takes_text_apart() {
    assert_eq!(characters("a\u{e9}b"), vec!['a', '\u{e9}', 'b']);
    assert!(characters("").is_empty());
}

#[test]
fn writes_decimal_numbers() {
    for n in [0, 1, 9, 10, 99, 100, 1080, 65535, u32::MAX] {
        let mut out = "=".to_string();
        push_decimal(&mut out, n);
        assert_eq!(out, format!("={}", n));
    }
}

#[test]
fn labels_flags() {
    assert_eq!(bool_label(true), "yes");
    assert_eq!(bool_label(false), "no");
}

#[test]
fn answers_the_health_check() {
    assert_eq!(health_handler(), "OK");
}

#[test]
fn the_page_shows_the_flags() {
    let html = page("ffmpeg {{ffmpeg}} pw {{pw}}", &[], &[], &LogBuffer::new());
    assert_eq!(html, "ffmpeg no pw yes");
}

#[test]
fn the_page_shows_the_whitelist() {
    let html = page("<ul>{{whitelist_rows}}</ul>", &["10.0.0.1", "::1"], &[], &LogBuffer::new());
    assert_eq!(html, "<ul><li>10.0.0.1</li>\n<li>::1</li></ul>");
}

#[test]
fn the_page_shows_that_no_client_is_connected() {
    let html = page("{{client_rows}}", &[], &[], &LogBuffer::new());
    assert_eq!(html, "<li><em>none</em></li>");
}

#[test]
fn the_page_shows_the_clients_with_a_button() {
    let html = page("{{client_rows}}", &[], &["10.0.0.1"], &LogBuffer::new());
    let row = "<li>10.0.0.1<form method=\"post\" action=\"/disconnect\" style=\"display:inline;margin:0\"><input type=\"hidden\" name=\"ip\" value=\"10.0.0.1\"><button type=\"submit\" class=\"disconnect-btn\">disconnect</button></form></li>";
    assert_eq!(html, row);
}

#[test]
fn the_page_shows_the_newest_line_first() {
    let html = page("{{log_rows}}", &[], &[], &log_of(&["one", "<two>"]));
    let rows = "<div>[castzura] INFO: &lt;two&gt;</div>\n<div>[castzura] INFO: one</div>";
    assert_eq!(html, rows);
}

#[test]
fn placeholders_in_the_log_are_left_alone() {
    let html = page("{{pw}} {{log_rows}}", &[], &[], &log_of(&["{{pw}}"]));
    assert_eq!(html, "yes <div>[castzura] INFO: {{pw}}</div>");
}

#[test]
fn a_template_without_placeholders_is_the_page() {
    let template = "<p>{ffmpeg} {{other}}</p>";
    assert_eq!(page(template, &["a"], &["b"], &log_of(&["c"])), template);
}

#[test]
fn the_status_is_for_this_machine_only() {
    let log = LogBuffer::new();
    let flags = StreamFlags::new();
    assert!(matches!(
        status_handler(REMOTE, "x", vec![], vec![], flags, &log),
        StatusPage::Forbidden
    ));
    assert!(matches!(
        status_raw_handler(REMOTE, vec![], vec![], flags, &log),
        RawStatus::Forbidden
    ));
    assert!(matches!(
        status_handler(IpAddr::V6(1), "x", vec![], vec![], flags, &log),
        StatusPage::Html(_)
    ));
}

#[test]
fn the_report_holds_the_state() {
    let flags = StreamFlags { pw_running: true, ffmpeg_running: false };
    let log = log_of(&["one", "two"]);
    let whitelist = vec!["10.0.0.1".to_string()];
    let clients = vec!["10.0.0.2".to_string()];
    match status_raw_handler(LOCAL, whitelist, clients, flags, &log) {
        RawStatus::Report(report) => {
            assert_eq!(report.whitelist, vec!["10.0.0.1"]);
            assert_eq!(report.connected_clients, vec!["10.0.0.2"]);
            assert!(report.pw_running);
            assert!(!report.ffmpeg_running);
            assert_eq!(report.logs, vec!["[castzura] INFO: one", "[castzura] INFO: two"]);
            let fields = report_fields(report);
            let names: Vec<&str> = fields.iter().map(|f| f.name).collect();
            assert_eq!(
                names,
                vec!["whitelist", "connected_clients", "ffmpeg_running", "pw_running", "logs"]
            );
            assert!(matches!(&fields[0].value, FieldValue::Texts(t) if t == &vec!["10.0.0.1"]));
            assert!(matches!(&fields[1].value, FieldValue::Texts(t) if t == &vec!["10.0.0.2"]));
            assert!(matches!(fields[2].value, FieldValue::Flag(false)));
            assert!(matches!(fields[3].value, FieldValue::Flag(true)));
            assert!(matches!(&fields[4].value, FieldValue::Texts(t) if t.len() == 2));
        }
        RawStatus::Forbidden => panic!("forbidden"),
    }
}

#[test]
fn the_log_keeps_the_newest_lines() {
    let messages: Vec<String> = (0..450).map(|i| format!("{}", i)).collect();
    let mut log = LogBuffer::new();
    for (i, message) in messages.iter().enumerate() {
        let mut visitor = MessageVisitor::new();
        visitor.record_debug("message", message.clone());
        log.on_event("t", "DEBUG", &visitor);
        assert_eq!(log.lines().len(), if i < 200 { i + 1 } else { 200 });
    }
    let lines = log.lines();
    assert_eq!(lines[0], "[t] DEBUG: 250");
    assert_eq!(lines[199], "[t] DEBUG: 449");
}

#[test]
fn only_the_message_field_counts() {
    let mut visitor = MessageVisitor::new();
    visitor.record_str("other", "x");
    assert_eq!(visitor.message, "");
    visitor.record_str("message", "y");
    visitor.record_debug("messages", "z".to_string());
    assert_eq!(visitor.message, "y");
    visitor.record_debug("message", "w".to_string());
    assert_eq!(visitor.message, "w");
}

#[test]
fn the_default_filter_names_the_crate() {
    assert_eq!(
        default_filter("castzura"),
        "castzura=debug,tower_http=debug,axum::rejection=trace"
    );
}

#[test]
fn one_stream_runs_at_a_time() {
    let mut flags = StreamFlags::new();
    assert_eq!(ws_handler(&mut flags), StreamStart::Initialize);
    assert_eq!(ws_handler(&mut flags), StreamStart::AlreadyRunning);
    assert!(!flags.on_event(StreamEvent::EncoderStarted));
    assert_eq!(flags, StreamFlags { pw_running: true, ffmpeg_running: true });
    assert_eq!(ws_handler(&mut flags), StreamStart::AlreadyRunning);
    assert!(!flags.on_event(StreamEvent::Exited));
    assert_eq!(flags, StreamFlags::new());
    assert_eq!(ws_handler(&mut flags), StreamStart::Initialize);
}

#[test]
fn a_stream_that_failed_can_be_started_again() {
    let mut flags = StreamFlags { pw_running: true, ffmpeg_running: true };
    assert!(!flags.on_event(StreamEvent::Failed));
    assert_eq!(flags, StreamFlags { pw_running: false, ffmpeg_running: true });
    assert!(flags.on_event(StreamEvent::Requested));
}
