use mpv_client::logging::{last_nonblank_line, log_file_path, log_file_target, log_line, LogFileTarget, LogLevel};

#[test]
fn log_file_property() {
    assert_eq!(log_file_target(""), LogFileTarget::Disabled);
    assert_eq!(log_file_target("~~/mpv.log"), LogFileTarget::Expand("~~/mpv.log".to_string()));
    assert_eq!(log_file_target("/tmp/mpv.log"), LogFileTarget::Path("/tmp/mpv.log".to_string()));
}

#[test]
fn plugin_log_file_path() {
    assert_eq!(log_file_path("/tmp/mpv.log", "sb"), "/tmp/mpv-sb.log");
    assert_eq!(log_file_path("/tmp/a.b/mpvlog", "sb"), "/tmp/a.b/mpvlog-sb");
    assert_eq!(log_file_path("mpvlog", "sb"), "mpvlog-sb");
    assert_eq!(log_file_path("C:\\logs.d\\mpv", "sb"), "C:\\logs.d\\mpv-sb");
    assert_eq!(log_file_path("C:\\logs\\mpv.txt", "sb"), "C:\\logs\\mpv-sb.txt");
    assert_eq!(log_file_path("a.tar.gz", "x"), "a.tar-x.gz");
    assert_eq!(log_file_path("", "x"), "-x");
}

#[test]
fn level_marks() {
    assert_eq!(LogLevel::Error.letter(), "e");
    assert_eq!(LogLevel::Warn.letter(), "w");
    assert_eq!(LogLevel::Info.letter(), "i");
    assert_eq!(LogLevel::Debug.letter(), "d");
    assert_eq!(LogLevel::Trace.letter(), "v");
    assert_eq!(LogLevel::Error.colors(), ("\x1b[31m", "\x1b[0m"));
    assert_eq!(LogLevel::Warn.colors(), ("\x1b[33m", "\x1b[0m"));
    assert_eq!(LogLevel::Info.colors(), ("", ""));
}

#[test]
fn record_line() {
    assert_eq!(log_line("sb", "skipped segment"), "[sb] skipped segment\n");
}

#[test]
fn last_line_of_a_log() {
    assert_eq!(last_nonblank_line(""), "");
    assert_eq!(last_nonblank_line("   \n\t\n"), "");
    assert_eq!(last_nonblank_line("[   1.000][i] a\n[   2.500][i] b\n\n  \n"), "[   2.500][i] b");
    assert_eq!(last_nonblank_line("one\r\ntwo\r\n"), "two");
    assert_eq!(last_nonblank_line("only"), "only");
}
