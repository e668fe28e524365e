use jsish::types::JsishError;
use jsish::{Config, Mode};

#[test]
fn no_flag_means_running_the_program() {
    let config = Config::new("prog.js".to_string(), false, false).expect("a configuration");
    assert_eq!(config.mode(), Mode::Interpret);
    assert_eq!(config.filename(), "prog.js");
}

#[test]
fn one_flag_selects_its_mode() {
    let ast = Config::new("a".to_string(), true, false).expect("a configuration");
    assert_eq!(ast.mode(), Mode::Ast);
    let print = Config::new("b".to_string(), false, true).expect("a configuration");
    assert_eq!(print.mode(), Mode::Print);
    assert_eq!(print.filename(), "b");
}

#[test]
fn both_flags_at_once_are_an_error() {
    let res = Config::new("a".to_string(), true, true);
    assert!(matches!(res, Err(JsishError::ConflictingModes)));
}
