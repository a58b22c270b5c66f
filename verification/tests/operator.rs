use hashjoin::hashjoin::strategy::JoinStrategy;
use hashjoin::operator::{
    execute, execute_groups, resolve, resolve_groups, run_hashjoin_with_projection, run_step,
    OperatorCommand, OperatorError, ResolveStep, RunStep,
};

const SOURCE_A: &str = "id,name\n1,Alice\n2,Bob\n";
const SOURCE_B: &str = "id,age\n2,30\n3,40\n";

fn strings(items: &[&str]) -> Vec<String> {
    items.iter().map(|s| s.to_string()).collect()
}

fn groups(parts: &[Option<&str>]) -> Vec<Option<String>> {
    parts.iter().map(|p| p.map(|s| s.to_string())).collect()
}

fn run(command: &str) -> Result<String, OperatorError> {
    execute(command, SOURCE_A.as_bytes(), SOURCE_B.as_bytes())
        .map(|bytes| String::from_utf8(bytes).unwrap())
}

#[test]
fn operator_wildcard_is_expanded_from_the_headers() {
    assert_eq!(
        run("select * from a.csv, b.csv hashjoin inner in_memory").unwrap(),
        "id,name,age\n2,Bob,30\n"
    );
    assert_eq!(
        run("SELECT * FROM a.csv,b.csv HASHJOIN Full IN_MEMORY").unwrap(),
        "id,name,age\n1,Alice,\n2,Bob,30\n,,40\n"
    );
}

#[test]
fn operator_explicit_columns() {
    assert_eq!(
        run("select age , name from a.csv, b.csv hashjoin left in_memory").unwrap(),
        "age,name\n,Alice\n30,Bob\n"
    );
}

#[test]
fn operator_needs_the_in_memory_strategy() {
    let e = run("select id from a.csv, b.csv hashjoin inner").unwrap_err();
    assert_eq!(e, OperatorError::ProjectionStrategy);
    assert_eq!(
        e.message(),
        "Проекция колонок (select ...) поддерживается только со стратегией 'in_memory'"
    );
    assert_eq!(
        run("select id from a.csv, b.csv hashjoin inner merge_join").unwrap_err(),
        OperatorError::ProjectionStrategy
    );
}

#[test]
fn operator_failures() {
    let e = run("join these please").unwrap_err();
    assert_eq!(e, OperatorError::Unsupported);
    assert_eq!(e.message(), "Неподдерживаемая команда");
    let e = run("select id from a.csv, b.csv hashjoin inner turbo").unwrap_err();
    assert_eq!(e, OperatorError::UnknownStrategy("turbo".to_string()));
    assert_eq!(e.message(), "Неизвестная стратегия: turbo");
    let e = run("select id from a.csv hashjoin inner in_memory").unwrap_err();
    assert_eq!(e, OperatorError::SourceCount);
    assert_eq!(e.message(), "Требуется ровно два CSV-файла");
    let e = run("select id from a.csv, b.csv hashjoin outer in_memory").unwrap_err();
    assert_eq!(
        e,
        OperatorError::UnknownJoinType("Неизвестный тип соединения: outer".to_string())
    );
    assert_eq!(e.message(), "Неизвестный тип соединения: outer");
    let e = run("select id, wage from a.csv, b.csv hashjoin inner in_memory").unwrap_err();
    assert_eq!(e, OperatorError::UnknownColumn("wage".to_string()));
    assert_eq!(e.message(), "Неизвестная колонка: 'wage'");
    assert_eq!(OperatorError::EmptyColumns.message(), "Список колонок не может быть пустым");
}

#[test]
fn operator_strategy_is_read_before_sources_are_counted() {
    assert_eq!(
        run("select id from a.csv hashjoin inner turbo").unwrap_err(),
        OperatorError::UnknownStrategy("turbo".to_string())
    );
}

#[test]
fn operator_sources_with_white_space_are_unsupported() {
    assert_eq!(
        run("select id from my file.csv, b.csv hashjoin inner in_memory").unwrap_err(),
        OperatorError::Unsupported
    );
}

#[test]
fn operator_reports_unreadable_sources() {
    let bad = "id,name\n1\n";
    let e = execute("select id from a.csv, b.csv hashjoin inner in_memory", bad.as_bytes(), SOURCE_B.as_bytes())
        .unwrap_err();
    assert!(matches!(e, OperatorError::Source { ref path, .. } if path == "a.csv"));
    let e = execute("select id from a.csv, b.csv hashjoin inner in_memory", SOURCE_A.as_bytes(), bad.as_bytes())
        .unwrap_err();
    assert!(matches!(e, OperatorError::Source { ref path, .. } if path == "b.csv"));
    let e = execute("select * from a.csv, b.csv hashjoin inner in_memory", SOURCE_A.as_bytes(), &[])
        .unwrap_err();
    assert_eq!(e, OperatorError::NoKeyColumn { path: "b.csv".to_string() });
    let e = execute("select * from a.csv, b.csv hashjoin inner in_memory", &[0xff, b'\n'], SOURCE_B.as_bytes())
        .unwrap_err();
    assert!(matches!(e, OperatorError::Source { ref path, .. } if path == "a.csv"));
}

#[test]
fn operator_wildcard_of_empty_shape_selects_nothing() {
    let e = execute("select * from a.csv, b.csv hashjoin inner in_memory", &[], "id\n1\n".as_bytes())
        .unwrap_err();
    assert_eq!(e, OperatorError::EmptyColumns);
}

#[test]
fn projection_join_treats_the_wildcard_as_a_name() {
    let e = run_hashjoin_with_projection(
        "a.csv",
        "b.csv",
        SOURCE_A.as_bytes(),
        SOURCE_B.as_bytes(),
        "inner",
        JoinStrategy::InMemory,
        &strings(&["*"]),
    )
    .unwrap_err();
    assert_eq!(e, OperatorError::UnknownColumn("*".to_string()));
}

#[test]
fn projection_join_runs() {
    let out = run_hashjoin_with_projection(
        "a.csv",
        "b.csv",
        SOURCE_A.as_bytes(),
        SOURCE_B.as_bytes(),
        "RIGHT OUTER",
        JoinStrategy::InMemory,
        &strings(&["id", "age"]),
    )
    .unwrap();
    assert_eq!(String::from_utf8(out).unwrap(), "id,age\n2,30\n,40\n");
}

#[test]
fn projection_join_checks_strategy_before_join_kind() {
    let e = run_hashjoin_with_projection(
        "a.csv",
        "b.csv",
        &[],
        &[],
        "sideways",
        JoinStrategy::DiskBased,
        &strings(&["id"]),
    )
    .unwrap_err();
    assert_eq!(e, OperatorError::ProjectionStrategy);
}

#[test]
fn operator_groups() {
    let g = groups(&[
        Some("w"),
        Some("id"),
        Some(" a.csv , b.csv "),
        Some("inner"),
        None,
        Some("in_memory"),
    ]);
    let out = execute_groups(&g, SOURCE_A.as_bytes(), SOURCE_B.as_bytes()).unwrap();
    assert_eq!(String::from_utf8(out).unwrap(), "id\n2\n");
    assert_eq!(
        resolve_groups(&g, None, None),
        ResolveStep::Resolved(OperatorCommand {
            columns: strings(&["id"]),
            file1: "a.csv".to_string(),
            file2: "b.csv".to_string(),
            join_type: "inner".to_string(),
            strategy: JoinStrategy::InMemory,
        })
    );
    let g = groups(&[Some("w"), Some("id"), Some("a.csv"), Some("inner"), None, None]);
    assert_eq!(resolve_groups(&g, None, None), ResolveStep::Failed(OperatorError::SourceCount));
    let g = groups(&[Some("w"), Some("id"), Some("a,b"), Some("inner"), None]);
    assert_eq!(resolve_groups(&g, None, None), ResolveStep::Failed(OperatorError::Unsupported));
    assert_eq!(execute_groups(&g, &[], &[]).unwrap_err(), OperatorError::Unsupported);
}

#[test]
fn operator_two_word_join_kind() {
    assert_eq!(
        run("select * from a.csv, b.csv hashjoin left outer in_memory").unwrap(),
        "id,name,age\n1,Alice,\n2,Bob,30\n"
    );
    assert_eq!(
        run("select id from a.csv, b.csv hashjoin FULL  OUTER In_Memory").unwrap(),
        "id\n1\n2\n\"\"\n"
    );
    assert_eq!(
        run("select id from a.csv, b.csv hashjoin left outer").unwrap_err(),
        OperatorError::UnknownStrategy("outer".to_string())
    );
}

#[test]
fn an_explicit_command_resolves_without_sources() {
    let step = resolve("select age , id from a.csv, b.csv hashjoin right outer in_memory", None, None);
    assert_eq!(
        step,
        ResolveStep::Resolved(OperatorCommand {
            columns: strings(&["age", "id"]),
            file1: "a.csv".to_string(),
            file2: "b.csv".to_string(),
            join_type: "right outer".to_string(),
            strategy: JoinStrategy::InMemory,
        })
    );
    assert_eq!(
        resolve("select id from a.csv, b.csv hashjoin inner", None, None),
        ResolveStep::Resolved(OperatorCommand {
            columns: strings(&["id"]),
            file1: "a.csv".to_string(),
            file2: "b.csv".to_string(),
            join_type: "inner".to_string(),
            strategy: JoinStrategy::OnlySmallest,
        })
    );
}

#[test]
fn a_command_that_fails_early_asks_for_no_source() {
    assert_eq!(
        resolve("nonsense", None, None),
        ResolveStep::Failed(OperatorError::Unsupported)
    );
    assert_eq!(
        resolve("select * from a.csv, b.csv hashjoin inner turbo", None, None),
        ResolveStep::Failed(OperatorError::UnknownStrategy("turbo".to_string()))
    );
    assert_eq!(
        resolve("select * from a.csv hashjoin inner in_memory", None, None),
        ResolveStep::Failed(OperatorError::SourceCount)
    );
}

#[test]
fn a_wildcard_command_asks_for_the_headers_in_order() {
    let command = "select * from a.csv, b.csv hashjoin inner merge_join";
    let a = SOURCE_A.as_bytes();
    let b = SOURCE_B.as_bytes();
    assert_eq!(resolve(command, None, None), ResolveStep::Read("a.csv".to_string()));
    assert_eq!(resolve(command, Some(a), None), ResolveStep::Read("b.csv".to_string()));
    assert_eq!(
        resolve(command, Some(a), Some(b)),
        ResolveStep::Resolved(OperatorCommand {
            columns: strings(&["id", "name", "age"]),
            file1: "a.csv".to_string(),
            file2: "b.csv".to_string(),
            join_type: "inner".to_string(),
            strategy: JoinStrategy::MergeJoin,
        })
    );
    let bad: &[u8] = &[0xff, b'\n'];
    assert!(matches!(
        resolve(command, Some(bad), None),
        ResolveStep::Failed(OperatorError::Source { ref path, .. }) if path == "a.csv"
    ));
    assert!(matches!(
        resolve(command, Some(a), Some(bad)),
        ResolveStep::Failed(OperatorError::Source { ref path, .. }) if path == "b.csv"
    ));
    assert_eq!(
        resolve(command, Some(a), Some(&[])),
        ResolveStep::Failed(OperatorError::NoKeyColumn { path: "b.csv".to_string() })
    );
    assert_eq!(
        resolve(command, Some(&[]), Some("id\n".as_bytes())),
        ResolveStep::Failed(OperatorError::EmptyColumns)
    );
}

#[test]
fn a_resolved_command_runs_in_steps() {
    let command = OperatorCommand {
        columns: strings(&["name", "age"]),
        file1: "a.csv".to_string(),
        file2: "b.csv".to_string(),
        join_type: "left outer".to_string(),
        strategy: JoinStrategy::InMemory,
    };
    let a = SOURCE_A.as_bytes();
    let b = SOURCE_B.as_bytes();
    assert_eq!(run_step(&command, None, None), RunStep::Read("a.csv".to_string()));
    assert_eq!(run_step(&command, Some(a), None), RunStep::Read("b.csv".to_string()));
    assert_eq!(
        run_step(&command, Some(a), Some(b)),
        RunStep::Done(Ok("name,age\nAlice,\nBob,30\n".as_bytes().to_vec()))
    );
    let bad = "id,name\n1\n".as_bytes();
    assert!(matches!(
        run_step(&command, Some(bad), None),
        RunStep::Done(Err(OperatorError::Source { ref path, .. })) if path == "a.csv"
    ));
    assert!(matches!(
        run_step(&command, Some(a), Some(bad)),
        RunStep::Done(Err(OperatorError::Source { ref path, .. })) if path == "b.csv"
    ));
}

#[test]
fn a_resolved_command_that_cannot_run_asks_for_no_source() {
    let mut command = OperatorCommand {
        columns: strings(&["id"]),
        file1: "a.csv".to_string(),
        file2: "b.csv".to_string(),
        join_type: "sideways".to_string(),
        strategy: JoinStrategy::OnlySmallest,
    };
    assert_eq!(
        run_step(&command, None, None),
        RunStep::Done(Err(OperatorError::ProjectionStrategy))
    );
    command.strategy = JoinStrategy::InMemory;
    assert_eq!(
        run_step(&command, None, None),
        RunStep::Done(Err(OperatorError::UnknownJoinType(
            "Неизвестный тип соединения: sideways".to_string()
        )))
    );
}

#[test]
fn operator_source_errors_carry_the_reader_description() {
    let bad = "id,name\n1,a,b\n";
    let e = execute("select id from a.csv, b.csv hashjoin inner in_memory", bad.as_bytes(), SOURCE_B.as_bytes())
        .unwrap_err();
    match &e {
        OperatorError::Source { path, detail } => {
            assert_eq!(path, "a.csv");
            assert_eq!(
                detail,
                "CSV error: record 1 (line: 2, byte: 8): found record with 3 fields, but the previous record has 2 fields"
            );
            assert_eq!(e.message(), format!("a.csv: {}", detail));
        }
        other => panic!("unexpected {:?}", other),
    }
}
