use hashjoin::hashjoin::strategy::{
    join_type_from_upper, parse_join_type, strategy_from_lower, JoinStrategy, JoinType,
};
use hashjoin::query::ast::OutputTarget;
use hashjoin::query::parser::{
    build_query, join_kind_text, parse_command, parse_output, trim_all, ParseError,
};
use hashjoin::text::{is_whitespace, same_text, split, trim};

fn file_of(target: &OutputTarget) -> Option<String> {
    match target {
        OutputTarget::Stdout => None,
        OutputTarget::File(path) => Some(path.clone()),
    }
}

fn groups(parts: &[Option<&str>]) -> Vec<Option<String>> {
    parts.iter().map(|p| p.map(|s| s.to_string())).collect()
}

#[test]
fn parses_wildcard_command_to_stdout() {
    let q = parse_command("select * from a.csv, b.csv hashjoin inner in_memory > ").unwrap();
    assert_eq!(q.columns, vec!["*".to_string()]);
    assert_eq!(q.file1, "a.csv");
    assert_eq!(q.file2, "b.csv");
    assert_eq!(q.join_type, JoinType::Inner);
    assert_eq!(q.strategy_name, "in_memory");
    assert!(matches!(q.output, OutputTarget::Stdout));
}

#[test]
fn keywords_are_case_insensitive() {
    let q = parse_command("SELECT id, name FROM left.csv , right.csv HASHJOIN LEFT In_Memory")
        .unwrap();
    assert_eq!(q.columns, vec!["id".to_string(), "name".to_string()]);
    assert_eq!(q.file1, "left.csv");
    assert_eq!(q.file2, "right.csv");
    assert_eq!(q.join_type, JoinType::Left);
    assert_eq!(q.strategy_name, "In_Memory");
}

#[test]
fn missing_output_clause_gives_default_file() {
    let q = parse_command("select * from a.csv, b.csv hashjoin full in_memory").unwrap();
    assert_eq!(file_of(&q.output), Some("result.csv".to_string()));
}

#[test]
fn missing_strategy_gives_default_name() {
    let q = parse_command("select id from a.csv, b.csv hashjoin right").unwrap();
    assert_eq!(q.strategy_name, "only_smallest");
    assert_eq!(q.join_type, JoinType::Right);
    assert_eq!(file_of(&q.output), Some("result.csv".to_string()));
}

#[test]
fn output_path_is_taken_as_written() {
    let q = parse_command("select * from a.csv, b.csv hashjoin inner in_memory > out/joined.csv")
        .unwrap();
    assert_eq!(file_of(&q.output), Some("out/joined.csv".to_string()));
}

#[test]
fn output_directory_gets_default_file_name() {
    let q = parse_command("select * from a.csv, b.csv hashjoin inner in_memory > out/").unwrap();
    assert_eq!(file_of(&q.output), Some("out/result.csv".to_string()));
    let q = parse_command("select * from a.csv, b.csv hashjoin inner in_memory > out\\").unwrap();
    assert_eq!(file_of(&q.output), Some("out\\result.csv".to_string()));
}

#[test]
fn surrounding_white_space_is_ignored() {
    let q = parse_command("  \t select  id  from  a.csv,b.csv  hashjoin  inner   \n").unwrap();
    assert_eq!(q.columns, vec!["id".to_string()]);
    assert_eq!(q.file1, "a.csv");
    assert_eq!(q.file2, "b.csv");
}

#[test]
fn second_word_after_join_kind_is_the_strategy() {
    let q = parse_command("select * from a.csv, b.csv hashjoin full outer").unwrap();
    assert_eq!(q.join_type, JoinType::Full);
    assert_eq!(q.strategy_name, "outer");
}

#[test]
fn two_word_join_kind_before_a_strategy() {
    let q = parse_command("select * from a.csv, b.csv hashjoin left outer in_memory").unwrap();
    assert_eq!(q.join_type, JoinType::Left);
    assert_eq!(q.strategy_name, "in_memory");
    assert_eq!(file_of(&q.output), Some("result.csv".to_string()));
    let q = parse_command("SELECT id FROM a.csv, b.csv HASHJOIN RIGHT   OUTER In_Memory > out.csv")
        .unwrap();
    assert_eq!(q.join_type, JoinType::Right);
    assert_eq!(q.strategy_name, "In_Memory");
    assert_eq!(file_of(&q.output), Some("out.csv".to_string()));
    let q = parse_command("select * from a.csv, b.csv hashjoin Full Outer merge_join >").unwrap();
    assert_eq!(q.join_type, JoinType::Full);
    assert_eq!(q.strategy_name, "merge_join");
    assert!(matches!(q.output, OutputTarget::Stdout));
}

#[test]
fn one_word_after_the_kind_is_the_strategy_also_before_an_output() {
    let q = parse_command("select * from a.csv, b.csv hashjoin left outer > out.csv").unwrap();
    assert_eq!(q.join_type, JoinType::Left);
    assert_eq!(q.strategy_name, "outer");
    assert_eq!(file_of(&q.output), Some("out.csv".to_string()));
}

#[test]
fn outer_after_a_kind_that_takes_none_is_refused() {
    let e = parse_command("select * from a.csv, b.csv hashjoin inner outer in_memory").unwrap_err();
    assert_eq!(
        e,
        ParseError::UnknownJoinType("Неизвестный тип соединения: inner outer".to_string())
    );
}

#[test]
fn more_words_than_the_grammar_has_are_unsupported() {
    assert_eq!(
        parse_command("select * from a.csv, b.csv hashjoin left outer in_memory fast").unwrap_err(),
        ParseError::Unsupported
    );
    assert_eq!(
        parse_command("select * from a.csv, b.csv hashjoin left in_memory fast").unwrap_err(),
        ParseError::Unsupported
    );
}

#[test]
fn text_without_the_grammar_is_unsupported() {
    assert_eq!(parse_command("hello world").unwrap_err(), ParseError::Unsupported);
    assert_eq!(parse_command("").unwrap_err(), ParseError::Unsupported);
    assert_eq!(
        parse_command("select * from a.csv, b.csv join inner").unwrap_err(),
        ParseError::Unsupported
    );
}

#[test]
fn other_source_counts_are_refused() {
    assert_eq!(
        parse_command("select * from a.csv hashjoin inner").unwrap_err(),
        ParseError::SourceCount
    );
    assert_eq!(
        parse_command("select * from a.csv, b.csv, c.csv hashjoin inner").unwrap_err(),
        ParseError::SourceCount
    );
}

#[test]
fn unknown_join_kind_is_refused_with_its_name() {
    let e = parse_command("select * from a.csv, b.csv hashjoin sideways in_memory").unwrap_err();
    assert_eq!(
        e,
        ParseError::UnknownJoinType("Неизвестный тип соединения: sideways".to_string())
    );
    assert_eq!(e.message(), "Неизвестный тип соединения: sideways");
}

#[test]
fn source_count_is_checked_before_join_kind() {
    assert_eq!(
        parse_command("select * from a.csv hashjoin sideways").unwrap_err(),
        ParseError::SourceCount
    );
}

#[test]
fn parse_messages() {
    assert_eq!(ParseError::Unsupported.message(), "Unsupported command");
    assert_eq!(ParseError::SourceCount.message(), "Exactly two CSV files are required");
    assert_eq!(ParseError::EmptyColumns.message(), "Column list cannot be empty");
    assert_eq!(ParseError::Pattern("bad".to_string()).message(), "bad");
}

#[test]
fn build_query_reads_groups() {
    let g = groups(&[
        Some("whole"),
        Some(" id , age "),
        Some("a.csv ,  b.csv"),
        Some("full"),
        None,
        Some("IN_MEMORY"),
        Some("  "),
    ]);
    let q = build_query(&g).unwrap();
    assert_eq!(q.columns, vec!["id".to_string(), "age".to_string()]);
    assert_eq!(q.file1, "a.csv");
    assert_eq!(q.file2, "b.csv");
    assert_eq!(q.join_type, JoinType::Full);
    assert_eq!(q.strategy_name, "IN_MEMORY");
    assert!(matches!(q.output, OutputTarget::Stdout));
    let g = groups(&[
        Some("whole"),
        Some("*"),
        Some("a.csv,b.csv"),
        Some("Left"),
        Some("OUTER"),
        None,
        None,
    ]);
    let q = build_query(&g).unwrap();
    assert_eq!(q.join_type, JoinType::Left);
    assert_eq!(q.strategy_name, "only_smallest");
    assert_eq!(file_of(&q.output), Some("result.csv".to_string()));
}

#[test]
fn join_kind_text_puts_the_words_together() {
    assert_eq!(join_kind_text(" left ", &Some("Outer".to_string())), "left Outer");
    assert_eq!(join_kind_text("inner", &None), "inner");
}

#[test]
fn build_query_refuses_other_shapes() {
    assert_eq!(build_query(&groups(&[])).unwrap_err(), ParseError::Unsupported);
    let g = groups(&[Some("w"), None, Some("a,b"), Some("inner"), None, None, None]);
    assert_eq!(build_query(&g).unwrap_err(), ParseError::Unsupported);
    let g = groups(&[Some("w"), Some("*"), Some("a,b"), Some("inner"), None, None]);
    assert_eq!(build_query(&g).unwrap_err(), ParseError::Unsupported);
}

#[test]
fn build_query_keeps_empty_names() {
    let g = groups(&[Some("w"), Some("id,,age"), Some("a,b"), Some("inner"), None, None, None]);
    let q = build_query(&g).unwrap();
    assert_eq!(q.columns, vec!["id".to_string(), "".to_string(), "age".to_string()]);
}

#[test]
fn parse_output_cases() {
    assert_eq!(file_of(&parse_output(None)), Some("result.csv".to_string()));
    assert!(matches!(parse_output(Some("")), OutputTarget::Stdout));
    assert!(matches!(parse_output(Some(" \t ")), OutputTarget::Stdout));
    assert_eq!(file_of(&parse_output(Some(" x.csv "))), Some("x.csv".to_string()));
    assert_eq!(file_of(&parse_output(Some("dir/"))), Some("dir/result.csv".to_string()));
    assert_eq!(file_of(&parse_output(Some("/"))), Some("/result.csv".to_string()));
}

#[test]
fn join_kinds_in_any_case() {
    assert_eq!(parse_join_type("inner"), Ok(JoinType::Inner));
    assert_eq!(parse_join_type("INNER"), Ok(JoinType::Inner));
    assert_eq!(parse_join_type("Left"), Ok(JoinType::Left));
    assert_eq!(parse_join_type("left outer"), Ok(JoinType::Left));
    assert_eq!(parse_join_type("right"), Ok(JoinType::Right));
    assert_eq!(parse_join_type("Right Outer"), Ok(JoinType::Right));
    assert_eq!(parse_join_type("full"), Ok(JoinType::Full));
    assert_eq!(parse_join_type("FULL OUTER"), Ok(JoinType::Full));
}

#[test]
fn join_kind_errors_quote_the_keyword() {
    assert_eq!(
        parse_join_type("cross"),
        Err("Неизвестный тип соединения: cross".to_string())
    );
    assert_eq!(parse_join_type(""), Err("Неизвестный тип соединения: ".to_string()));
    assert_eq!(
        parse_join_type("left  outer"),
        Err("Неизвестный тип соединения: left  outer".to_string())
    );
}

#[test]
fn join_kind_from_upper_is_exact() {
    assert_eq!(join_type_from_upper("INNER"), Some(JoinType::Inner));
    assert_eq!(join_type_from_upper("LEFT OUTER"), Some(JoinType::Left));
    assert_eq!(join_type_from_upper("RIGHT OUTER"), Some(JoinType::Right));
    assert_eq!(join_type_from_upper("FULL"), Some(JoinType::Full));
    assert_eq!(join_type_from_upper("inner"), None);
    assert_eq!(join_type_from_upper("OUTER"), None);
}

#[test]
fn strategies_in_any_case() {
    assert_eq!(JoinStrategy::from_str("in_memory"), Some(JoinStrategy::InMemory));
    assert_eq!(JoinStrategy::from_str("IN_MEMORY"), Some(JoinStrategy::InMemory));
    assert_eq!(JoinStrategy::from_str("Only_Smallest"), Some(JoinStrategy::OnlySmallest));
    assert_eq!(
        JoinStrategy::from_str("stream_processing"),
        Some(JoinStrategy::StreamProcessing)
    );
    assert_eq!(JoinStrategy::from_str("merge_join"), Some(JoinStrategy::MergeJoin));
    assert_eq!(JoinStrategy::from_str("DISK_BASED"), Some(JoinStrategy::DiskBased));
    assert_eq!(JoinStrategy::from_str("polars"), None);
    assert_eq!(JoinStrategy::from_str(""), None);
}

#[test]
fn strategy_from_lower_is_exact() {
    assert_eq!(strategy_from_lower("in_memory"), Some(JoinStrategy::InMemory));
    assert_eq!(strategy_from_lower("In_Memory"), None);
    assert_eq!(strategy_from_lower("disk_based"), Some(JoinStrategy::DiskBased));
}

#[test]
fn trim_removes_unicode_white_space() {
    assert_eq!(trim("  a b \t\n"), "a b");
    assert_eq!(trim("\u{a0}\u{2003}x\u{3000}"), "x");
    assert_eq!(trim(" \r\n "), "");
    assert_eq!(trim(""), "");
    assert_eq!(trim("x"), "x");
    assert_eq!(trim("\u{200b}x"), "\u{200b}x");
}

#[test]
fn split_keeps_empty_pieces() {
    assert_eq!(split("a,b", ','), vec!["a".to_string(), "b".to_string()]);
    assert_eq!(split("", ','), vec!["".to_string()]);
    assert_eq!(split(",", ','), vec!["".to_string(), "".to_string()]);
    assert_eq!(split("a,,b,", ','), vec!["a", "", "b", ""]);
    assert_eq!(split("no separator", ','), vec!["no separator".to_string()]);
    assert_eq!(split("é,ü", ','), vec!["é".to_string(), "ü".to_string()]);
}

#[test]
fn trim_all_trims_each() {
    let v = vec![" a ".to_string(), "b".to_string(), "  ".to_string()];
    assert_eq!(trim_all(&v), vec!["a".to_string(), "b".to_string(), "".to_string()]);
}

#[test]
fn same_text_compares_characters() {
    assert!(same_text("abc", "abc"));
    assert!(!same_text("abc", "abd"));
    assert!(!same_text("abc", "ab"));
    assert!(same_text("", ""));
}

#[test]
fn white_space_is_the_unicode_property() {
    for code in 0u32..=0x10FFFF {
        if let Some(c) = char::from_u32(code) {
            assert_eq!(is_whitespace(c), c.is_whitespace(), "U+{:04X}", code);
        }
    }
}

#[test]
fn trim_and_split_agree_with_the_standard_library() {
    let samples = [
        "",
        " ",
        "a",
        "  select * from a, b  ",
        "\t\u{2028}x y\u{85}",
        ",a,,b ,",
        "\u{feff}bom ",
        "ß, İ ,ı",
    ];
    for s in samples {
        assert_eq!(trim(s), s.trim());
        let expected: Vec<String> = s.split(',').map(|p| p.to_string()).collect();
        assert_eq!(split(s, ','), expected);
    }
}

#[test]
fn case_mapping_is_unicode() {
    assert_eq!(parse_join_type("\u{131}nner"), Ok(JoinType::Inner));
    assert_eq!(JoinStrategy::from_str("\u{212a}ey"), None);
    assert_eq!(JoinStrategy::from_str("MERGE_JOIN"), Some(JoinStrategy::MergeJoin));
}
