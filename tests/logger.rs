use log::{LevelFilter, Log, Metadata, Record};
use pericortex::logger::{init, log_line, Severity};

struct Quiet;

impl Log for Quiet {
    fn enabled(&self, _: &Metadata) -> bool {
        false
    }
    fn log(&self, _: &Record) {}
    fn flush(&self) {}
}

#[test]
fn init_sets_level_once_installed() {
    assert!(init(LevelFilter::Warn, log::set_logger(&Quiet)).is_ok());
    assert_eq!(log::max_level(), LevelFilter::Warn);
    // a second logger cannot be installed; the level stays as it was
    assert!(init(LevelFilter::Trace, log::set_logger(&Quiet)).is_err());
    assert_eq!(log::max_level(), LevelFilter::Warn);
}

#[test]
fn log_line_colours_the_target() {
    assert_eq!(
        log_line("2020-01-02 03:04:05", "w:received", Severity::Info, "task 1, read 5 bytes"),
        "\r[2020-01-02 03:04:05] \x1b[32mw:received\t\x1b[0mtask 1, read 5 bytes"
    );
    assert_eq!(
        log_line("t", "x", Severity::Error, "boom"),
        "\r[t] \x1b[31mx\t\x1b[0mboom"
    );
    assert_eq!(log_line("t", "x", Severity::Warn, ""), "\r[t] \x1b[33mx\t\x1b[0m");
    assert_eq!(log_line("t", "x", Severity::Trace, "."), "\r[t] \x1b[37mx\t\x1b[0m.");
    assert_eq!(log_line("t", "x", Severity::Debug, "plain"), "\r[t] x\tplain");
    assert_eq!(log_line("t", "", Severity::Debug, "d"), "\r[t] \td");
}
