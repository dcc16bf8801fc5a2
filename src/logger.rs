//! Logging: the process-wide set-up, and the line printed for each record.
use vstd::prelude::*;

verus! {

/// `log::LevelFilter`, carried through to `log::set_max_level`.
#[verifier::external_type_specification]
#[verifier::external_body]
pub struct ExLevelFilter(log::LevelFilter);

/// `log::SetLoggerError`, the failure of `log::set_logger`, carried through.
#[verifier::external_type_specification]
#[verifier::external_body]
pub struct ExSetLoggerError(log::SetLoggerError);

/// Relies on `log::set_max_level`: it stores the most verbose level that is
/// logged, and returns nothing.
#[verifier::external_body]
fn set_max_level(level: log::LevelFilter) {
    log::set_max_level(level)
}

/// Finishes setting up logging after an attempt to install the process-wide
/// logger (`log::set_logger`, which succeeds only once per process). When the
/// logger was installed, logging is set to `level` and the result is `Ok`;
/// otherwise the level is left alone and the installation's error is returned.
pub fn init(level: log::LevelFilter, installed: Result<(), log::SetLoggerError>) -> (r: Result<
    (),
    log::SetLoggerError,
>)
    ensures
        r is Ok <==> installed is Ok,
        installed matches Err(e) ==> r == Err::<(), log::SetLoggerError>(e),
{
    match installed {
        Ok(()) => {
            set_max_level(level);
            Ok(())
        },
        Err(e) => Err(e),
    }
}

/// How important a record is, from the most to the least.
#[derive(Clone, Copy, Debug, PartialEq, Eq, Structural)]
pub enum Severity {
    Error,
    Warn,
    Info,
    Debug,
    Trace,
}

/// How the target of a record is coloured on a terminal.
#[derive(Clone, Copy, Debug, PartialEq, Eq, Structural)]
pub enum Tint {
    Red,
    Yellow,
    Green,
    White,
    Plain,
}

/// Errors red, warnings yellow, information green, debugging plain, and
/// tracing white.
pub open spec fn tint_for(level: Severity) -> Tint {
    match level {
        Severity::Error => Tint::Red,
        Severity::Warn => Tint::Yellow,
        Severity::Info => Tint::Green,
        Severity::Debug => Tint::Plain,
        Severity::Trace => Tint::White,
    }
}

/// The ANSI foreground code of a colour.
pub open spec fn foreground_code(t: Tint) -> Seq<char> {
    match t {
        Tint::Red => seq!['3', '1'],
        Tint::Yellow => seq!['3', '3'],
        Tint::Green => seq!['3', '2'],
        _ => seq!['3', '7'],
    }
}

/// `text` with the escape codes that colour it on a terminal: none for plain
/// text, else the colour's code before and the reset code after.
pub open spec fn painted(t: Tint, text: Seq<char>) -> Seq<char> {
    if t == Tint::Plain {
        text
    } else {
        seq!['\x1b', '['] + foreground_code(t) + seq!['m'] + text + seq!['\x1b', '[', '0', 'm']
    }
}

/// The line printed for a record: `\r[{timestamp}] {target}\t{details}`,
/// the target and its tab coloured by the record's severity.
pub open spec fn log_line_of(
    timestamp: Seq<char>,
    target: Seq<char>,
    level: Severity,
    details: Seq<char>,
) -> Seq<char> {
    seq!['\r', '['] + timestamp + seq![']', ' '] + painted(tint_for(level), target.push('\t'))
        + details
}

/// The colour for a record of `level`.
pub fn tint_of(level: Severity) -> (r: Tint)
    ensures
        r == tint_for(level),
{
    match level {
        Severity::Error => Tint::Red,
        Severity::Warn => Tint::Yellow,
        Severity::Info => Tint::Green,
        Severity::Debug => Tint::Plain,
        Severity::Trace => Tint::White,
    }
}

/// Relies on ansi_term's `Colour::paint` and `Style::paint` with their
/// `Display`: the colour's foreground code in an escape sequence, the text,
/// then the reset sequence; nothing around the text for the plain style.
#[verifier::external_body]
fn paint(tint: Tint, text: &str) -> (r: String)
    ensures
        r@ == painted(tint, text@),
{
    match tint {
        Tint::Red => ansi_term::Colour::Red.paint(text).to_string(),
        Tint::Yellow => ansi_term::Colour::Yellow.paint(text).to_string(),
        Tint::Green => ansi_term::Colour::Green.paint(text).to_string(),
        Tint::White => ansi_term::Colour::White.paint(text).to_string(),
        Tint::Plain => ansi_term::Style::default().paint(text).to_string(),
    }
}

/// The line to print for a record of `level` from `target`, stamped with
/// `timestamp`.
pub fn log_line(timestamp: &str, target: &str, level: Severity, details: &str) -> (r: String)
    ensures
        r@ == log_line_of(timestamp@, target@, level, details@),
{
    let mut category = target.to_owned();
    category.append("\t");
    let mut line = String::new();
    line.append("\r[");
    line.append(timestamp);
    line.append("] ");
    let coloured = paint(tint_of(level), category.as_str());
    line.append(coloured.as_str());
    line.append(details);
    proof {
        reveal_strlit("\t");
        reveal_strlit("\r[");
        reveal_strlit("] ");
    }
    assert(category@ =~= target@.push('\t'));
    assert(line@ =~= log_line_of(timestamp@, target@, level, details@));
    line
}

} // verus!
