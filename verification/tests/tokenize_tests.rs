use at_commands::tokenize::{parse_words_from_line, query_line_args};

#[test]
fn words_are_maximal_nonblank_runs_with_offsets() {
    let line = "please see @file foo.py and @fi".to_string();
    let words = parse_words_from_line(&line);
    assert_eq!(
        words,
        vec![
            ("please".to_string(), 0, 6),
            ("see".to_string(), 7, 10),
            ("@file".to_string(), 11, 16),
            ("foo.py".to_string(), 17, 23),
            ("and".to_string(), 24, 27),
            ("@fi".to_string(), 28, 31),
        ]
    );
}

#[test]
fn repeated_blanks_and_edges_yield_no_empty_words() {
    let words = parse_words_from_line(&"  a \t bb ".to_string());
    assert_eq!(
        words,
        vec![("a".to_string(), 2, 3), ("bb".to_string(), 6, 8)]
    );
    assert_eq!(parse_words_from_line(&"".to_string()), vec![]);
    assert_eq!(parse_words_from_line(&"   ".to_string()), vec![]);
}

#[test]
fn args_carry_focus_and_global_offsets() {
    let names = vec!["@file".to_string()];
    let line = "see @file foo.py".to_string();
    // Cursor inside "foo.py" (relative offset 12), line starting at global 100.
    let args = query_line_args(&line, 12, 100, &names);
    assert_eq!(args.len(), 3);
    assert_eq!(args[0].value, "see");
    assert_eq!((args[0].pos1, args[0].pos2, args[0].focused), (100, 103, false));
    assert_eq!(args[1].value, "@file");
    assert_eq!((args[1].pos1, args[1].pos2, args[1].focused), (104, 109, false));
    assert_eq!(args[2].value, "foo.py");
    assert_eq!((args[2].pos1, args[2].pos2, args[2].focused), (110, 116, true));
}

#[test]
fn scan_stops_at_a_second_command_further_left() {
    let names = vec!["@file".to_string()];
    let line = "@file a.py @file b.py".to_string();
    // Cursor at the end of the line: only the nearest trailing command binds;
    // the earlier "@file" and everything left of it is dropped.
    let args = query_line_args(&line, 21, 0, &names);
    let values: Vec<&str> = args.iter().map(|a| a.value.as_str()).collect();
    assert_eq!(values, vec!["a.py", "@file", "b.py"]);
}

#[test]
fn scan_stops_before_a_command_when_a_focused_sigil_token_was_seen() {
    let names = vec!["@file".to_string()];
    let line = "please see @file foo.py and @fi".to_string();
    // Cursor at the end of "@fi": the gathered "@fi" token is focused and
    // holds the sigil, so the scan stops at the registered "@file".
    let args = query_line_args(&line, 31, 0, &names);
    let values: Vec<&str> = args.iter().map(|a| a.value.as_str()).collect();
    assert_eq!(values, vec!["foo.py", "and", "@fi"]);
    assert!(args[2].focused);
    assert_eq!((args[2].pos1, args[2].pos2), (28, 31));
}

#[test]
fn unfocused_stale_command_does_not_stop_the_scan() {
    let names = vec!["@file".to_string()];
    let line = "@file one two".to_string();
    // Cursor on "two"; nothing gathered so far is a registered name or a
    // focused sigil token, so the command itself is kept.
    let args = query_line_args(&line, 13, 0, &names);
    let values: Vec<&str> = args.iter().map(|a| a.value.as_str()).collect();
    assert_eq!(values, vec!["@file", "one", "two"]);
}
