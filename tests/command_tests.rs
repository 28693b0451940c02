use runwhen::command::{env_var_to_tuple, split_words, Command};
use runwhen::error::ErrorKind;

fn strings(v: &[&str]) -> Vec<String> {
    v.iter().map(|s| s.to_string()).collect()
}

#[test]
fn parse_splits_program_and_args() {
    let c = Command::parse("ls  -l /tmp", &None).unwrap();
    assert_eq!(c.program(), "ls");
    assert_eq!(c.args(), &strings(&["-l", "/tmp"]));
    assert!(c.env_pairs().is_empty());
}

#[test]
fn parse_splits_on_any_blank() {
    let c = Command::parse("\tmake\n all \r", &None).unwrap();
    assert_eq!(c.program(), "make");
    assert_eq!(c.args(), &strings(&["all"]));
}

#[test]
fn parse_single_word_has_no_args() {
    let c = Command::parse("true", &None).unwrap();
    assert_eq!(c.program(), "true");
    assert!(c.args().is_empty());
}

#[test]
fn parse_empty_is_config_error() {
    let e = Command::parse("", &None).err().unwrap();
    assert_eq!(e.kind, ErrorKind::Config);
}

#[test]
fn parse_all_blank_is_config_error() {
    let e = Command::parse("   \t \n", &None).err().unwrap();
    assert_eq!(e.kind, ErrorKind::Config);
}

#[test]
fn parse_keeps_env_settings_in_order() {
    let env = Some(strings(&["A=1", "B=two", "A=3"]));
    let c = Command::parse("env", &env).unwrap();
    let pairs = c.env_pairs();
    assert_eq!(pairs.len(), 3);
    assert_eq!(pairs[0], ("A".to_string(), "1".to_string()));
    assert_eq!(pairs[1], ("B".to_string(), "two".to_string()));
    assert_eq!(pairs[2], ("A".to_string(), "3".to_string()));
}

#[test]
fn split_words_drops_empty_tokens() {
    assert_eq!(split_words("  a  bb   c "), strings(&["a", "bb", "c"]));
    assert!(split_words("").is_empty());
    assert!(split_words("    ").is_empty());
}

#[test]
fn split_words_keeps_non_ascii() {
    assert_eq!(split_words("échos  ünï"), strings(&["échos", "ünï"]));
}

#[test]
fn env_var_with_value() {
    assert_eq!(env_var_to_tuple("PATH=/bin"), ("PATH".to_string(), "/bin".to_string()));
}

#[test]
fn env_var_without_value() {
    assert_eq!(env_var_to_tuple("DEBUG"), ("DEBUG".to_string(), "".to_string()));
    assert_eq!(env_var_to_tuple("DEBUG="), ("DEBUG".to_string(), "".to_string()));
}

#[test]
fn env_var_value_stops_at_second_equals() {
    assert_eq!(env_var_to_tuple("A=b=c"), ("A".to_string(), "b".to_string()));
}

#[test]
fn env_var_empty_name() {
    assert_eq!(env_var_to_tuple("=x"), ("".to_string(), "x".to_string()));
}

#[test]
fn parse_splits_on_unicode_whitespace() {
    let c = Command::parse("a\u{0B}b\u{3000}c\u{A0}d\u{2009}e", &None).unwrap();
    assert_eq!(c.program(), "a");
    assert_eq!(c.args(), &strings(&["b", "c", "d", "e"]));
}

#[test]
fn parse_unicode_blank_line_is_config_error() {
    for line in ["\u{0B}", "\u{3000}", " \u{A0}\u{85}\u{2028} "] {
        assert_eq!(Command::parse(line, &None).err().unwrap().kind, ErrorKind::Config);
    }
}
