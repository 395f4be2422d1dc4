use forlex::errors::{error_to_string, to_stderr, Error};
use forlex::program::{Program, Variable};
use forlex::text::usize_to_string;

fn s(x: &str) -> String {
    x.to_string()
}

fn sample_program() -> Program {
    Program::new(s("hello"), Vec::new(), s("m.f"))
}

#[test]
fn error_labels() {
    assert_eq!(error_to_string(&Error::Syntax), "Syntax");
    assert_eq!(error_to_string(&Error::NotImplemented), "NotImplemented");
    assert_eq!(error_to_string(&Error::FileNotFound), "FileNotFound");
    assert_eq!(error_to_string(&Error::Type), "Type");
    assert_eq!(error_to_string(&Error::UnknownToken), "UnknownToken");
    assert_eq!(error_to_string(&Error::UnexpectedToken), "UnexpectedToken");
    assert_eq!(error_to_string(&Error::Critical), "Critical");
    assert_eq!(
        error_to_string(&Error::TooCharactersOnLine),
        "TooCharactersOnLine"
    );
    assert_eq!(
        error_to_string(&Error::ForbiddenCharacter),
        "ForbiddenCharacter"
    );
    assert_eq!(error_to_string(&Error::WrongFormat), "WrongFormat");
}

#[test]
fn decimal_rendering() {
    assert_eq!(usize_to_string(0), s("0"));
    assert_eq!(usize_to_string(7), s("7"));
    assert_eq!(usize_to_string(10), s("10"));
    assert_eq!(usize_to_string(12345), s("12345"));
}

#[test]
fn diagnostic_rendering_plain_and_colored() {
    let program = sample_program();
    colored::control::set_override(false);
    let plain = to_stderr(&program, &Error::Syntax, s("bad token"), false);
    assert_eq!(plain, s("error: Syntax: `bad token`\n--> m.f:hello:0"));
    let warning = to_stderr(&program, &Error::UnknownToken, s("odd word"), true);
    assert_eq!(warning, s("warning: UnknownToken: `odd word`\n--> m.f:hello:0"));
    colored::control::set_override(true);
    let colored_text = to_stderr(&program, &Error::Syntax, s("bad token"), false);
    assert_eq!(
        colored_text,
        s("\u{1b}[31merror\u{1b}[0m: \u{1b}[36mSyntax\u{1b}[0m: `bad token`\n\u{1b}[34m-->\u{1b}[0m m.f:hello:0")
    );
    let colored_warning = to_stderr(&program, &Error::Critical, s("stop"), true);
    assert_eq!(
        colored_warning,
        s("\u{1b}[33mwarning\u{1b}[0m: \u{1b}[36mCritical\u{1b}[0m: `stop`\n\u{1b}[34m-->\u{1b}[0m m.f:hello:0")
    );
    colored::control::unset_override();
}

#[test]
fn variable_table_set_is_replace_not_merge() {
    let mut program = sample_program();
    program.set_variable(s("x"), Variable::new(s("x"), s("REAL")));
    program.set_variable(s("y"), Variable::new(s("y"), s("LOGICAL")));
    program.set_variable(s("x"), Variable::new(s("x"), s("INTEGER")));
    let x = program.get_variable("x").expect("x must be bound");
    assert_eq!(x.get_kind(), "INTEGER");
    let y = program.get_variable("y").expect("y must be bound");
    assert_eq!(y.get_kind(), "LOGICAL");
    assert!(program.get_variable("z").is_none());
}

#[test]
fn program_cursor_and_verbosity() {
    let mut program = sample_program();
    assert_eq!(program.get_line(), 0);
    program.set_line(4);
    assert_eq!(program.get_line(), 4);
    assert!(!program.is_verbose());
    program.set_verbose(true);
    assert!(program.is_verbose());
}
