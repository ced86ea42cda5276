use mini_db::command::{
    do_meta_command, prepare_statement, MetaCommand, MetaCommandError, PrepareError, Statement,
};
use mini_db::text::{parse_u32, split_line, u32_to_decimal};

#[test]
fn insert_line_parses_to_insert_statement() {
    let line = String::from("insert 1 user1 person1@example.com");
    match prepare_statement(&line) {
        Ok(Statement::Insert(row)) => {
            assert_eq!(row.id, 1);
            assert_eq!(row.username, "user1");
            assert_eq!(row.email, "person1@example.com");
        }
        _ => panic!("expected an insert statement"),
    }
}

#[test]
fn insert_with_two_arguments_is_a_syntax_error() {
    let line = String::from("insert 1 user1");
    match prepare_statement(&line) {
        Err(e) => assert_eq!(e, PrepareError::SyntaxError),
        Ok(_) => panic!("expected a syntax error"),
    }
}

#[test]
fn insert_with_extra_argument_is_a_syntax_error() {
    let line = String::from("insert 1 user1 person1@example.com extra");
    match prepare_statement(&line) {
        Err(e) => assert_eq!(e, PrepareError::SyntaxError),
        Ok(_) => panic!("expected a syntax error"),
    }
}

#[test]
fn insert_with_non_numeric_id_is_a_syntax_error() {
    let line = String::from("insert abc user1 person1@example.com");
    match prepare_statement(&line) {
        Err(e) => assert_eq!(e, PrepareError::SyntaxError),
        Ok(_) => panic!("expected a syntax error"),
    }
}

#[test]
fn insert_with_overflowing_id_is_a_syntax_error() {
    let ok = String::from("insert 4294967295 u e");
    match prepare_statement(&ok) {
        Ok(Statement::Insert(row)) => assert_eq!(row.id, u32::MAX),
        _ => panic!("largest 32-bit id must be accepted"),
    }
    let too_big = String::from("insert 4294967296 u e");
    match prepare_statement(&too_big) {
        Err(e) => assert_eq!(e, PrepareError::SyntaxError),
        Ok(_) => panic!("expected a syntax error"),
    }
}

#[test]
fn insert_field_byte_bounds_are_enforced() {
    let name32 = "a".repeat(32);
    let name33 = "a".repeat(33);
    let email255 = "e".repeat(255);
    let email256 = "e".repeat(256);
    let fits = format!("insert 1 {} {}", name32, email255);
    match prepare_statement(&fits) {
        Ok(Statement::Insert(row)) => {
            assert_eq!(row.username, name32);
            assert_eq!(row.email, email255);
        }
        _ => panic!("fields at their bounds must be accepted"),
    }
    let long_name = format!("insert 1 {} ok@example.com", name33);
    match prepare_statement(&long_name) {
        Err(e) => assert_eq!(e, PrepareError::SyntaxError),
        Ok(_) => panic!("an over-long username must be turned away"),
    }
    let long_email = format!("insert 1 ok {}", email256);
    match prepare_statement(&long_email) {
        Err(e) => assert_eq!(e, PrepareError::SyntaxError),
        Ok(_) => panic!("an over-long email must be turned away"),
    }
}

#[test]
fn select_parses_to_select_statement() {
    let line = String::from("select");
    match prepare_statement(&line) {
        Ok(Statement::Select) => {}
        _ => panic!("expected a select statement"),
    }
}

#[test]
fn select_with_arguments_is_a_syntax_error() {
    let line = String::from("select 1");
    match prepare_statement(&line) {
        Err(e) => assert_eq!(e, PrepareError::SyntaxError),
        Ok(_) => panic!("expected a syntax error"),
    }
}

#[test]
fn keywords_match_without_regard_to_case() {
    let upper = String::from("SELECT");
    assert!(matches!(prepare_statement(&upper), Ok(Statement::Select)));
    let mixed = String::from("InSeRt 7 u e");
    match prepare_statement(&mixed) {
        Ok(Statement::Insert(row)) => assert_eq!(row.id, 7),
        _ => panic!("expected an insert statement"),
    }
}

#[test]
fn unknown_keyword_is_an_unrecognized_statement() {
    let line = String::from("delete 1");
    match prepare_statement(&line) {
        Err(e) => assert_eq!(e, PrepareError::UnrecognizedStatement),
        Ok(_) => panic!("expected an unrecognized statement"),
    }
}

#[test]
fn empty_line_is_an_unrecognized_statement() {
    let line = String::new();
    match prepare_statement(&line) {
        Err(e) => assert_eq!(e, PrepareError::UnrecognizedStatement),
        Ok(_) => panic!("expected an unrecognized statement"),
    }
}

#[test]
fn exit_meta_command_is_recognized() {
    let line = String::from(".exit");
    assert_eq!(do_meta_command(&line), Ok(MetaCommand::Exit));
}

#[test]
fn unknown_meta_command_is_turned_away() {
    let line = String::from(".bogus");
    assert_eq!(do_meta_command(&line), Err(MetaCommandError::UnrecognizedCommand));
}

#[test]
fn split_line_keeps_empty_tokens() {
    assert_eq!(split_line("a  b"), vec!["a", "", "b"]);
    assert_eq!(split_line(""), vec![""]);
    assert_eq!(split_line(" lead"), vec!["", "lead"]);
    assert_eq!(split_line("trail "), vec!["trail", ""]);
}

#[test]
fn parse_u32_reads_exact_values() {
    assert_eq!(parse_u32("0"), Some(0));
    assert_eq!(parse_u32("007"), Some(7));
    assert_eq!(parse_u32("1400"), Some(1400));
    assert_eq!(parse_u32("4294967295"), Some(u32::MAX));
    assert_eq!(parse_u32("4294967296"), None);
    assert_eq!(parse_u32(""), None);
    assert_eq!(parse_u32("-1"), None);
    assert_eq!(parse_u32("+1"), None);
    assert_eq!(parse_u32("1 "), None);
}

#[test]
fn u32_prints_as_plain_decimal() {
    assert_eq!(u32_to_decimal(0), "0");
    assert_eq!(u32_to_decimal(9), "9");
    assert_eq!(u32_to_decimal(10), "10");
    assert_eq!(u32_to_decimal(1400), "1400");
    assert_eq!(u32_to_decimal(u32::MAX), "4294967295");
}
