use mini_db::command::{prepare_statement, Statement};
use mini_db::executor::{execute_insert, execute_select, execute_statement, ExecuteError};
use mini_db::row::{Row, ROWS_PER_PAGE, TABLE_MAX_PAGES, TABLE_MAX_ROWS};
use mini_db::shell::{process_line, LineAction};
use mini_db::table::{row_at, row_slot, Table};

fn insert_statement(id: u32, username: &str, email: &str) -> Statement {
    Statement::Insert(Row {
        id,
        username: String::from(username),
        email: String::from(email),
    })
}

#[test]
fn capacity_is_one_hundred_pages_of_fourteen_rows() {
    assert_eq!(ROWS_PER_PAGE, 14);
    assert_eq!(TABLE_MAX_PAGES, 100);
    assert_eq!(TABLE_MAX_ROWS, 1400);
}

#[test]
fn new_table_is_empty_and_well_formed() {
    let t = Table::new();
    assert_eq!(t.num_rows, 0);
    assert_eq!(t.pages.len(), 0);
    assert!(t.is_well_formed());
}

#[test]
fn row_slot_materializes_the_page_and_a_zero_row() {
    let mut t = Table::new();
    let slot = row_slot(&mut t, 0);
    assert_eq!(slot.id, 0);
    assert_eq!(slot.username, "");
    assert_eq!(slot.email, "");
    slot.id = 7;
    assert_eq!(t.pages.len(), 1);
    assert_eq!(t.pages[0].rows.len(), 1);
    assert_eq!(t.pages[0].rows[0].id, 7);
    assert_eq!(t.num_rows, 0);
}

#[test]
fn inserts_come_back_from_select_in_insertion_order() {
    let mut t = Table::new();
    for id in 1..=40u32 {
        let st = insert_statement(id, &format!("user{}", id), &format!("u{}@example.com", id));
        assert!(execute_insert(&st, &mut t).is_ok());
    }
    assert_eq!(t.num_rows, 40);
    assert!(t.is_well_formed());
    assert_eq!(t.pages.len(), 3);
    let lines = execute_select(&t);
    assert_eq!(lines.len(), 40);
    for (k, line) in lines.iter().enumerate() {
        let id = k as u32 + 1;
        assert_eq!(line, &format!("{} user{} u{}@example.com", id, id, id));
    }
}

#[test]
fn select_is_idempotent() {
    let mut t = Table::new();
    for id in [3u32, 1, 2] {
        let st = insert_statement(id, "u", "e@example.com");
        assert!(execute_insert(&st, &mut t).is_ok());
    }
    let first = execute_select(&t);
    let second = execute_select(&t);
    assert_eq!(first, second);
}

#[test]
fn full_table_refuses_the_next_insert_unchanged() {
    let mut t = Table::new();
    for id in 0..TABLE_MAX_ROWS as u32 {
        let st = insert_statement(id, "u", "e@x.y");
        assert_eq!(execute_insert(&st, &mut t), Ok(()));
    }
    assert_eq!(t.num_rows, TABLE_MAX_ROWS);
    assert!(t.is_well_formed());
    let one_more = insert_statement(9999, "late", "late@x.y");
    assert_eq!(execute_insert(&one_more, &mut t), Err(ExecuteError::TableFull));
    assert_eq!(t.num_rows, TABLE_MAX_ROWS);
    assert_eq!(row_at(&t, 0).id, 0);
    assert_eq!(row_at(&t, TABLE_MAX_ROWS - 1).id, TABLE_MAX_ROWS as u32 - 1);
}

#[test]
fn execute_statement_routes_insert_and_select() {
    let mut t = Table::new();
    let st = insert_statement(5, "five", "five@example.com");
    match execute_statement(&st, &mut t) {
        Ok(lines) => assert!(lines.is_empty()),
        Err(_) => panic!("insert into an empty table must succeed"),
    }
    match execute_statement(&Statement::Select, &mut t) {
        Ok(lines) => assert_eq!(lines, vec!["5 five five@example.com"]),
        Err(_) => panic!("select must succeed"),
    }
    assert_eq!(t.num_rows, 1);
}

#[test]
fn three_record_scenario_prints_both_rows_in_order() {
    let mut t = Table::new();
    let first = String::from("insert 1 a a@b.com");
    match process_line(&mut t, &first) {
        LineAction::Output(lines) => assert_eq!(lines, vec!["Executed."]),
        LineAction::Exit => panic!("an insert must not end the loop"),
    }
    let second = String::from("insert 2 b b@c.com");
    match process_line(&mut t, &second) {
        LineAction::Output(lines) => assert_eq!(lines, vec!["Executed."]),
        LineAction::Exit => panic!("an insert must not end the loop"),
    }
    let select = String::from("select");
    match process_line(&mut t, &select) {
        LineAction::Output(lines) => {
            assert_eq!(lines, vec!["1 a a@b.com", "2 b b@c.com"]);
        }
        LineAction::Exit => panic!("a select must not end the loop"),
    }
}

#[test]
fn exit_line_ends_the_loop() {
    let mut t = Table::new();
    let line = String::from(".exit");
    assert!(matches!(process_line(&mut t, &line), LineAction::Exit));
}

#[test]
fn bogus_meta_command_keeps_the_loop_running() {
    let mut t = Table::new();
    let st = insert_statement(1, "keep", "keep@example.com");
    assert!(execute_insert(&st, &mut t).is_ok());
    let line = String::from(".bogus");
    match process_line(&mut t, &line) {
        LineAction::Output(lines) => assert_eq!(lines, vec!["Unrecognized Command!"]),
        LineAction::Exit => panic!("an unknown meta-command must not end the loop"),
    }
    assert_eq!(t.num_rows, 1);
    assert_eq!(row_at(&t, 0).username, "keep");
}

#[test]
fn shell_reports_each_failure_kind() {
    let mut t = Table::new();
    let unknown = String::from("delete 1");
    match process_line(&mut t, &unknown) {
        LineAction::Output(lines) => assert_eq!(lines, vec!["Unrecognized Statement!"]),
        LineAction::Exit => panic!("unexpected exit"),
    }
    let malformed = String::from("insert 1 user1");
    match process_line(&mut t, &malformed) {
        LineAction::Output(lines) => assert_eq!(lines, vec!["Syntax Error!"]),
        LineAction::Exit => panic!("unexpected exit"),
    }
    assert_eq!(t.num_rows, 0);
    for id in 0..TABLE_MAX_ROWS as u32 {
        let st = insert_statement(id, "u", "e@x.y");
        assert!(execute_insert(&st, &mut t).is_ok());
    }
    let overflow = String::from("insert 2000 late late@x.y");
    match process_line(&mut t, &overflow) {
        LineAction::Output(lines) => assert_eq!(lines, vec!["Error: Table full."]),
        LineAction::Exit => panic!("unexpected exit"),
    }
    assert_eq!(t.num_rows, TABLE_MAX_ROWS);
}

#[test]
fn parsed_insert_round_trips_through_the_shell() {
    let mut t = Table::new();
    let line = String::from("insert 10 user10 person10@example.com");
    let st = prepare_statement(&line).ok().expect("the line is well-formed");
    match st {
        Statement::Insert(ref row) => assert_eq!(row.id, 10),
        Statement::Select => panic!("expected an insert"),
    }
    assert!(execute_insert(&st, &mut t).is_ok());
    let lines = execute_select(&t);
    assert_eq!(lines, vec!["10 user10 person10@example.com"]);
}
