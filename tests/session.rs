use zero_db::{ExecuteResult, MetaCommand, MetaCommandError, PrepareResult, Row, Statement, VirtualMachine};

fn run(vm: &mut VirtualMachine, line: &str) -> Vec<Row> {
    match Statement::prepare(line) {
        PrepareResult::Success(statement) => match vm.execute(statement).unwrap() {
            ExecuteResult::Success(rows) => rows,
            other => panic!("unexpected {:?}", other),
        },
        other => panic!("unexpected {:?}", other),
    }
}

#[test]
fn insert_then_select_returns_the_record() {
    let mut vm = VirtualMachine::new();
    let inserted = run(&mut vm, "insert 42 john john@example.com");
    assert_eq!(inserted.len(), 1);
    let rows = run(&mut vm, "select");
    assert_eq!(rows.len(), 1);
    assert_eq!(rows[0].id, 42);
    assert_eq!(rows[0].username, "john");
    assert_eq!(rows[0].email, "john@example.com");
    assert_eq!(vm.row_count(), 1);
}

#[test]
fn two_inserts_are_selected_in_order() {
    let mut vm = VirtualMachine::new();
    run(&mut vm, "insert 1 alice a@x.com");
    run(&mut vm, "insert 2 bob b@x.com");
    let rows = run(&mut vm, "select");
    assert_eq!(rows.len(), 2);
    assert_eq!((rows[0].id, rows[0].username.as_str(), rows[0].email.as_str()), (1, "alice", "a@x.com"));
    assert_eq!((rows[1].id, rows[1].username.as_str(), rows[1].email.as_str()), (2, "bob", "b@x.com"));
}

#[test]
fn bad_id_is_a_syntax_error_and_stores_nothing() {
    let mut vm = VirtualMachine::new();
    match Statement::prepare("insert abc john j@x.com") {
        PrepareResult::SyntaxError(m) => assert_eq!(m, "Id should be a number"),
        other => panic!("unexpected {:?}", other),
    }
    assert!(run(&mut vm, "select").is_empty());
    assert_eq!(vm.row_count(), 0);
}

#[test]
fn unknown_statements_and_meta_commands() {
    assert!(matches!(Statement::prepare("foobar"), PrepareResult::UnrecognizedStatement));
    assert_eq!(MetaCommand::from_str("bogus"), Err(MetaCommandError::Invalid));
    assert_eq!(MetaCommand::from_str("exit"), Ok(MetaCommand::Exit));
}

#[test]
fn name_and_contact_boundaries() {
    let mut vm = VirtualMachine::new();
    let name32 = "n".repeat(32);
    let contact256 = "c".repeat(256);
    let rows = run(&mut vm, &format!("insert 9 {} {}", name32, contact256));
    assert_eq!(rows[0].username, name32.as_str());
    assert_eq!(rows[0].email, contact256.as_str());
    match Statement::prepare(&format!("insert 9 {} c", "n".repeat(33))) {
        PrepareResult::SyntaxError(m) => {
            assert!(m.contains("Username") && m.contains("32"));
        }
        other => panic!("unexpected {:?}", other),
    }
    match Statement::prepare(&format!("insert 9 n {}", "c".repeat(257))) {
        PrepareResult::SyntaxError(m) => {
            assert!(m.contains("Email") && m.contains("256"));
        }
        other => panic!("unexpected {:?}", other),
    }
    assert_eq!(run(&mut vm, "select").len(), 1);
}
