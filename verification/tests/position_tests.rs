use at_commands::error::RequestError;
use at_commands::position::{
    code_completion_post_validate, validate_cursor_position, CodeCompletionInputs,
    CodeCompletionPost, CursorPosition,
};

fn post_with(source: &str, line: i32, character: i32) -> CodeCompletionPost {
    CodeCompletionPost {
        inputs: CodeCompletionInputs {
            sources: vec![("hello.py".to_string(), source.to_string())],
            cursor: CursorPosition {
                file: "hello.py".to_string(),
                line,
                character,
            },
            multiline: true,
        },
        model: "".to_string(),
        stream: false,
        no_cache: false,
        use_ast: true,
        use_vecdb: true,
        rag_tokens_n: 0,
    }
}

#[test]
fn test_valid_post1() {
    let post = post_with("def hello_world():", 0, 18);
    assert!(code_completion_post_validate(&post).is_ok());
}

#[test]
fn test_valid_post2() {
    let post = post_with("你好世界Ωßåß\u{f8ff}🤖", 0, 10);
    assert!(code_completion_post_validate(&post).is_ok());
}

#[test]
fn test_invalid_post_incorrect_line() {
    let post = post_with("def hello_world():", 2, 18);
    assert!(code_completion_post_validate(&post).is_err());
}

#[test]
fn test_invalid_post_incorrect_col() {
    let post = post_with("def hello_world():", 0, 80);
    assert!(code_completion_post_validate(&post).is_err());
}

#[test]
fn unknown_source_file_is_rejected() {
    let mut post = post_with("def hello_world():", 0, 0);
    post.inputs.cursor.file = "other.py".to_string();
    assert_eq!(
        code_completion_post_validate(&post),
        Err(RequestError::UnknownSourceFile)
    );
}

#[test]
fn line_and_column_errors_are_distinguished() {
    let src = "a\nbc".to_string();
    assert_eq!(validate_cursor_position(&src, 0, 1), Ok(()));
    assert_eq!(validate_cursor_position(&src, 1, 2), Ok(()));
    assert_eq!(
        validate_cursor_position(&src, 1, 3),
        Err(RequestError::ColumnOutOfRange)
    );
    assert_eq!(
        validate_cursor_position(&src, 2, 0),
        Err(RequestError::LineOutOfRange)
    );
    assert_eq!(
        validate_cursor_position(&src, -1, 0),
        Err(RequestError::LineOutOfRange)
    );
    assert_eq!(
        validate_cursor_position(&src, 0, -1),
        Err(RequestError::ColumnOutOfRange)
    );
}

#[test]
fn trailing_newline_makes_an_empty_final_line() {
    let src = "a\n".to_string();
    assert_eq!(validate_cursor_position(&src, 1, 0), Ok(()));
    assert_eq!(
        validate_cursor_position(&src, 1, 1),
        Err(RequestError::ColumnOutOfRange)
    );
    assert_eq!(
        validate_cursor_position(&src, 2, 0),
        Err(RequestError::LineOutOfRange)
    );
}

#[test]
fn error_messages_name_the_failure() {
    assert_eq!(
        RequestError::OutOfRange.message(),
        "incorrect cursor provided"
    );
    assert_eq!(
        RequestError::LineOutOfRange.message(),
        "Invalid post: line number exceeds lines in file"
    );
    assert_eq!(
        RequestError::ColumnOutOfRange.message(),
        "Invalid post: char number exceeds chars in line"
    );
    assert_eq!(
        RequestError::UnknownSourceFile.message(),
        "Invalid post: cursor in a file that is not a source"
    );
}
