use at_commands::locate::get_line_with_cursor;
use at_commands::resolve::{
    apply_completions, finalize_completions, resolve_begin, resolve_on_validation,
    CommandDescriptor, CommandRegistry, CompletionResult, ParameterSpec, ResolverStep,
};
use at_commands::text::prefix_chars;
use at_commands::tokenize::query_line_args;

fn file_registry(completion_valid: bool) -> CommandRegistry {
    CommandRegistry {
        commands: vec![CommandDescriptor {
            name: "@file".to_string(),
            params: vec![ParameterSpec { completion_valid }],
        }],
    }
}

/// Runs one completion request end to end, playing the collaborator:
/// `valid` answers the validation calls, `complete` the completion calls,
/// and every validation call is recorded in `asked`.
fn drive(
    registry: &CommandRegistry,
    query: &str,
    cursor: i64,
    valid: &dyn Fn(usize, &str) -> bool,
    complete: &dyn Fn(usize, &str) -> Vec<String>,
    asked: &mut Vec<(usize, String)>,
) -> CompletionResult {
    let names = registry.command_names();
    let located = get_line_with_cursor(&query.to_string(), cursor);
    let (line, rel, start) = match located {
        Ok(t) => t,
        Err(_) => {
            return CompletionResult {
                completions: vec![],
                is_cmd_executable: false,
                pos1: -1,
                pos2: -1,
            }
        }
    };
    let visible = prefix_chars(&line, rel as usize);
    let args = query_line_args(&visible, rel, start, &names);
    let mut step = resolve_begin(args, registry, cursor);
    loop {
        match step {
            ResolverStep::Done(res) => return res,
            ResolverStep::NeedValidation(frame) => {
                let idx = frame.index;
                let value = frame.args[idx].value.clone();
                asked.push((idx, value.clone()));
                let ok = valid(idx, &value);
                step = resolve_on_validation(frame, ok);
            }
            ResolverStep::NeedCompletion(req) => {
                let suggestions = complete(req.param_index, &req.partial);
                return apply_completions(req, suggestions);
            }
        }
    }
}

#[test]
fn mistyped_focused_command_gets_name_completions() {
    let registry = file_registry(false);
    let query = "please see @file foo.py and @fi";
    let mut asked = Vec::new();
    let r = drive(
        &registry,
        query,
        31,
        &|_, _| true,
        &|_, _| vec![],
        &mut asked,
    );
    assert_eq!(r.completions, vec!["@file".to_string()]);
    assert!(!r.is_cmd_executable);
    assert_eq!((r.pos1, r.pos2), (28, 31));
    assert!(asked.is_empty());
}

#[test]
fn invalid_focused_argument_gets_its_parameter_completions() {
    let registry = file_registry(false);
    let query = "@file src/main.rs";
    let mut asked = Vec::new();
    let r = drive(
        &registry,
        query,
        17,
        &|_, _| false,
        &|_, partial| vec![format!("{}.bak", partial)],
        &mut asked,
    );
    assert_eq!(r.completions, vec!["src/main.rs.bak".to_string()]);
    assert_eq!((r.pos1, r.pos2), (6, 17));
    // A result that offers suggestions is never executable: the focused
    // value is still being corrected.
    assert!(!r.is_cmd_executable);
    assert_eq!(asked, vec![(0, "src/main.rs".to_string())]);
}

#[test]
fn valid_complete_line_is_executable_with_nothing_to_offer() {
    let registry = file_registry(false);
    let query = "@file src/main.rs ";
    let mut asked = Vec::new();
    let r = drive(
        &registry,
        query,
        18,
        &|_, _| true,
        &|_, _| vec!["never".to_string()],
        &mut asked,
    );
    assert!(r.is_cmd_executable);
    assert_eq!(r.completions, Vec::<String>::new());
    assert_eq!((r.pos1, r.pos2), (-1, -1));
    assert_eq!(asked, vec![(0, "src/main.rs".to_string())]);
}

#[test]
fn invalid_unfocused_first_argument_aborts_before_the_second() {
    let registry = CommandRegistry {
        commands: vec![CommandDescriptor {
            name: "@cmd".to_string(),
            params: vec![
                ParameterSpec { completion_valid: false },
                ParameterSpec { completion_valid: false },
            ],
        }],
    };
    // Cursor sits at the end of argument 2; argument 1 is invalid and unfocused.
    let query = "@cmd bad good";
    let mut asked = Vec::new();
    let r = drive(
        &registry,
        query,
        13,
        &|_, value| value != "bad",
        &|_, _| vec!["never".to_string()],
        &mut asked,
    );
    assert_eq!(r.completions, Vec::<String>::new());
    assert!(!r.is_cmd_executable);
    assert_eq!((r.pos1, r.pos2), (-1, -1));
    // Argument 2 was never validated and never asked for completions.
    assert_eq!(asked, vec![(0, "bad".to_string())]);
}

#[test]
fn valid_focused_argument_offers_more_when_the_parameter_allows() {
    let registry = file_registry(true);
    let query = "@file src/";
    let mut asked = Vec::new();
    let r = drive(
        &registry,
        query,
        10,
        &|_, _| true,
        &|_, partial| vec![format!("{}main.rs", partial), format!("{}lib.rs", partial)],
        &mut asked,
    );
    assert_eq!(
        r.completions,
        vec!["src/main.rs".to_string(), "src/lib.rs".to_string()]
    );
    assert!(!r.is_cmd_executable);
    assert_eq!((r.pos1, r.pos2), (6, 10));
}

#[test]
fn unfocused_command_without_arguments_prompts_the_next_parameter() {
    let registry = file_registry(false);
    let query = "@file ";
    let mut asked = Vec::new();
    let r = drive(
        &registry,
        query,
        6,
        &|_, _| true,
        &|idx, partial| {
            assert_eq!(idx, 0);
            assert_eq!(partial, "");
            vec!["src/main.rs".to_string()]
        },
        &mut asked,
    );
    assert_eq!(r.completions, vec!["src/main.rs".to_string()]);
    assert!(!r.is_cmd_executable);
    assert_eq!((r.pos1, r.pos2), (6, 6));
    assert!(asked.is_empty());
}

#[test]
fn line_without_a_sigil_offers_nothing() {
    let registry = file_registry(false);
    let mut asked = Vec::new();
    let r = drive(
        &registry,
        "plain words only",
        5,
        &|_, _| true,
        &|_, _| vec!["never".to_string()],
        &mut asked,
    );
    assert_eq!(r.completions, Vec::<String>::new());
    assert!(!r.is_cmd_executable);
    assert_eq!((r.pos1, r.pos2), (-1, -1));
}

#[test]
fn stale_mistyped_command_away_from_the_cursor_is_quiet() {
    let registry = file_registry(false);
    // Cursor at the end of "words", far from the mistyped "@fi".
    let query = "@fi and more words";
    let mut asked = Vec::new();
    let r = drive(
        &registry,
        query,
        18,
        &|_, _| true,
        &|_, _| vec!["never".to_string()],
        &mut asked,
    );
    assert_eq!(r.completions, Vec::<String>::new());
    assert!(!r.is_cmd_executable);
    assert_eq!((r.pos1, r.pos2), (-1, -1));
}

#[test]
fn cursor_past_the_text_offers_nothing() {
    let registry = file_registry(false);
    let mut asked = Vec::new();
    let r = drive(
        &registry,
        "@file",
        99,
        &|_, _| true,
        &|_, _| vec!["never".to_string()],
        &mut asked,
    );
    assert_eq!(r.completions, Vec::<String>::new());
    assert!(!r.is_cmd_executable);
}

#[test]
fn finalize_drops_duplicates_and_appends_the_separator() {
    let r = finalize_completions(vec![
        "@file".to_string(),
        "@file".to_string(),
        "@sym".to_string(),
        "@file".to_string(),
    ]);
    assert_eq!(r, vec!["@file ".to_string(), "@sym ".to_string()]);
}
