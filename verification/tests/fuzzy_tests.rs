use at_commands::fuzzy::command_completion_options;

#[test]
fn only_prefix_matches_are_offered() {
    let names = vec![
        "@file".to_string(),
        "@symbols".to_string(),
        "@web".to_string(),
    ];
    let r = command_completion_options(&names, &"@fi".to_string());
    assert_eq!(r, vec!["@file".to_string()]);
}

#[test]
fn closer_names_rank_first() {
    let names = vec![
        "@apricot".to_string(),
        "@ap".to_string(),
        "@app".to_string(),
    ];
    let r = command_completion_options(&names, &"@ap".to_string());
    assert_eq!(
        r,
        vec!["@ap".to_string(), "@app".to_string(), "@apricot".to_string()]
    );
}

#[test]
fn ranking_runs_twice_with_identical_output() {
    let names = vec![
        "@ca".to_string(),
        "@cb".to_string(),
        "@apricot".to_string(),
        "@cc".to_string(),
        "@cd".to_string(),
    ];
    let partial = "@c".to_string();
    let first = command_completion_options(&names, &partial);
    let second = command_completion_options(&names, &partial);
    assert_eq!(first, second);
}

#[test]
fn equal_scores_keep_enumeration_order() {
    // All four candidates score the same against the partial input, so the
    // stable sort must keep them in registry order.
    let names = vec![
        "@cd".to_string(),
        "@cb".to_string(),
        "@ca".to_string(),
        "@cc".to_string(),
    ];
    let r = command_completion_options(&names, &"@c".to_string());
    assert_eq!(
        r,
        vec![
            "@cd".to_string(),
            "@cb".to_string(),
            "@ca".to_string(),
            "@cc".to_string()
        ]
    );
}

#[test]
fn more_than_five_matches_are_capped_at_five() {
    let names = vec![
        "@ca".to_string(),
        "@cb".to_string(),
        "@cc".to_string(),
        "@cd".to_string(),
        "@ce".to_string(),
        "@cf".to_string(),
        "@cg".to_string(),
    ];
    let r = command_completion_options(&names, &"@c".to_string());
    assert_eq!(r.len(), 5);
    assert_eq!(
        r,
        vec![
            "@ca".to_string(),
            "@cb".to_string(),
            "@cc".to_string(),
            "@cd".to_string(),
            "@ce".to_string()
        ]
    );
}

#[test]
fn empty_partial_matches_everything() {
    let names = vec!["@file".to_string(), "@web".to_string()];
    let r = command_completion_options(&names, &"".to_string());
    assert_eq!(r.len(), 2);
}
