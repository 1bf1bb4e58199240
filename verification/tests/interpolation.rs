//! Tests for the interpolation engine: interpolate, escape, unescape,
//! validate.

use compose_yml::environment::Environment;
use compose_yml::environment::MemoryEnvironment;
use compose_yml::errors::Error;
use compose_yml::interpolation::escape_str;
use compose_yml::interpolation::interpolate_env;
use compose_yml::interpolation::unescape_str;
use compose_yml::interpolation::validate;

fn env_foo_empty() -> MemoryEnvironment {
    let mut env = MemoryEnvironment::new();
    env.set("FOO", "foo");
    env.set("EMPTY", "");
    env
}

#[test]
fn interpolate_env_interpolates_env_vars() {
    let env = env_foo_empty();

    assert_eq!("foo", interpolate_env("$FOO", &env).unwrap());
    assert_eq!("foo", interpolate_env("${FOO}", &env).unwrap());
    assert_eq!("foo foo", interpolate_env("$FOO $FOO", &env).unwrap());
    assert_eq!("plain", interpolate_env("plain", &env).unwrap());
    assert_eq!("$escaped", interpolate_env("$$escaped", &env).unwrap());
    assert_eq!("${escaped}", interpolate_env("$${escaped}", &env).unwrap());

    // Defaulting.
    assert_eq!("bar", interpolate_env("${BAR-bar}", &env).unwrap());
    assert_eq!("bar", interpolate_env("${BAR:-bar}", &env).unwrap());
    assert_eq!("", interpolate_env("${EMPTY-bar}", &env).unwrap());
    assert_eq!("bar", interpolate_env("${EMPTY:-bar}", &env).unwrap());
}

#[test]
fn interpolate_env_returns_an_error_if_input_is_invalid() {
    let env = MemoryEnvironment::new();

    assert!(interpolate_env("$", &env).is_err());
    assert!(interpolate_env("${", &env).is_err());
    assert!(interpolate_env("$}", &env).is_err());
    assert!(interpolate_env("${}", &env).is_err());
    assert!(interpolate_env("${ }", &env).is_err());
    assert!(interpolate_env("${ foo}", &env).is_err());
    assert!(interpolate_env("${foo }", &env).is_err());
    assert!(interpolate_env("${foo!}", &env).is_err());
}

#[test]
fn interpolate_env_returns_an_error_if_variable_is_undefined() {
    let env = MemoryEnvironment::new();

    assert!(interpolate_env("$NOSUCH", &env).is_err());
}

#[test]
fn escape_str_escapes_dollar_signs() {
    assert_eq!("$$VAR1 $${VAR2} $$", escape_str("$VAR1 ${VAR2} $"));
}

#[test]
fn unescape_str_unescapes_without_interpolating() {
    // Actual interpolation is forbidden.
    assert!(unescape_str("$FOO").is_err());

    assert_eq!("plain", unescape_str("plain").unwrap());
    assert_eq!("$escaped", unescape_str("$$escaped").unwrap());
    assert_eq!("${escaped}", unescape_str("$${escaped}").unwrap());
}

#[test]
fn validate_tests_interpolation_strings() {
    assert!(validate("plain").is_ok());
    assert!(validate("$$escaped").is_ok());
    assert!(validate("$${escaped}").is_ok());
    assert!(validate("$FOO").is_ok());
    assert!(validate("${FOO}").is_ok());

    assert!(validate("${").is_err());
    assert!(validate("$}").is_err());
    assert!(validate("${}").is_err());
    assert!(validate("${ }").is_err());
    assert!(validate("${ foo}").is_err());
    assert!(validate("${foo }").is_err());
    assert!(validate("${foo!}").is_err());
}

#[test]
fn literal_strings_interpolate_to_themselves() {
    let mut env = MemoryEnvironment::new();
    env.set("X", "never used");
    for s in ["", "plain", "a b c", "no references here {} - :-"] {
        assert_eq!(s, interpolate_env(s, &env).unwrap());
        assert_eq!(s, interpolate_env(s, &MemoryEnvironment::new()).unwrap());
    }
}

#[test]
fn escape_takes_precedence_over_lookup() {
    let mut with_x = MemoryEnvironment::new();
    with_x.set("X", "defined");
    let without_x = MemoryEnvironment::new();
    assert_eq!("$X", interpolate_env("$$X", &with_x).unwrap());
    assert_eq!("$X", interpolate_env("$$X", &without_x).unwrap());
}

#[test]
fn bare_and_braced_references_use_the_value() {
    let mut env = MemoryEnvironment::new();
    env.set("FOO", "foo");
    assert_eq!("foo", interpolate_env("$FOO", &env).unwrap());
    assert_eq!("foo", interpolate_env("${FOO}", &env).unwrap());
}

#[test]
fn dash_and_colon_dash_treat_empty_differently() {
    let mut env = MemoryEnvironment::new();
    env.set("EMPTY", "");
    env.set("FULL", "full");
    assert_eq!("", interpolate_env("${EMPTY-bar}", &env).unwrap());
    assert_eq!("bar", interpolate_env("${EMPTY:-bar}", &env).unwrap());
    // A present, non-empty variable wins over either default form.
    assert_eq!("full", interpolate_env("${FULL-bar}", &env).unwrap());
    assert_eq!("full", interpolate_env("${FULL:-bar}", &env).unwrap());
}

#[test]
fn absent_variables_fall_back_or_fail() {
    let env = MemoryEnvironment::new();
    assert_eq!("bar", interpolate_env("${BAR-bar}", &env).unwrap());
    match interpolate_env("$BAR", &env) {
        Err(Error::UndefinedVariable(name)) => assert_eq!(name, "BAR"),
        other => panic!("expected UndefinedVariable, got {:?}", other),
    }
}

#[test]
fn malformed_references_fail_validation_with_invalid_syntax() {
    for s in ["$", "${", "$}", "${}", "${ }", "${ foo}", "${foo }", "${foo!}"] {
        match validate(s) {
            Err(Error::InvalidSyntax(text)) => assert_eq!(text, s),
            other => panic!("expected InvalidSyntax for {:?}, got {:?}", s, other),
        }
    }
}

#[test]
fn single_letter_names_are_valid() {
    let mut env = MemoryEnvironment::new();
    env.set("F", "f");
    assert!(validate("$F").is_ok());
    assert_eq!("f", interpolate_env("$F", &env).unwrap());
    assert_eq!("f", interpolate_env("${F}", &env).unwrap());
}

#[test]
fn default_text_runs_to_the_last_closing_brace() {
    // The default of a braced reference is greedy: it extends to the
    // last `}` of the remaining input.
    let env = MemoryEnvironment::new();
    assert_eq!("x} ${B-y", interpolate_env("${A-x} ${B-y}", &env).unwrap());
    assert_eq!("x}tail", interpolate_env("${A-x}tail}", &env).unwrap());
}

#[test]
fn default_text_is_taken_verbatim() {
    let mut env = MemoryEnvironment::new();
    env.set("INNER", "never");
    assert_eq!("$INNER", interpolate_env("${MISSING-$INNER}", &env).unwrap());
    assert_eq!("$$INNER", interpolate_env("${MISSING-$$INNER}", &env).unwrap());
}

#[test]
fn the_first_error_is_surfaced() {
    let mut env = MemoryEnvironment::new();
    env.set("FOO", "foo");
    // An undefined variable before a syntax error: the undefined one wins.
    match interpolate_env("$MISSING $", &env) {
        Err(Error::UndefinedVariable(name)) => assert_eq!(name, "MISSING"),
        other => panic!("expected UndefinedVariable, got {:?}", other),
    }
    // A syntax error before an undefined variable: the syntax error wins.
    match interpolate_env("$ $MISSING", &env) {
        Err(Error::InvalidSyntax(text)) => assert_eq!(text, "$ $MISSING"),
        other => panic!("expected InvalidSyntax, got {:?}", other),
    }
}

#[test]
fn unescape_reports_resolution_required_with_the_input() {
    match unescape_str("a $FOO b") {
        Err(Error::ResolutionRequired(text)) => assert_eq!(text, "a $FOO b"),
        other => panic!("expected ResolutionRequired, got {:?}", other),
    }
}

#[test]
fn escape_then_unescape_round_trips() {
    for s in ["", "plain", "$", "$$", "a$b$c", "${X}"] {
        let escaped = escape_str(s);
        assert_eq!(s, unescape_str(&escaped).unwrap());
        assert!(validate(&escaped).is_ok());
    }
}

#[test]
fn memory_environment_later_settings_win() {
    let mut env = MemoryEnvironment::new();
    env.set("A", "one");
    env.set("A", "two");
    assert_eq!(env.var("A"), Some("two".to_owned()));
    assert_eq!(env.var("B"), None);
}

#[test]
fn error_kinds_are_reported() {
    assert_eq!(Error::InvalidSyntax("$".to_owned()).kind(), "invalid syntax");
    assert_eq!(
        Error::ResolutionRequired("$X".to_owned()).kind(),
        "resolution required"
    );
    assert_eq!(
        Error::UndefinedVariable("X".to_owned()).kind(),
        "undefined variable"
    );
    assert_eq!(
        Error::InvalidValue("mode".to_owned(), "xx".to_owned()).kind(),
        "invalid value"
    );
}
