use rdash::{clip_line, combine_output, pad_to};

#[test]
fn output_is_stdout_alone_when_stderr_is_empty() {
    assert_eq!(combine_output("A", ""), "A");
}

#[test]
fn output_is_stderr_alone_when_stdout_is_empty() {
    assert_eq!(combine_output("", "B"), "B");
}

#[test]
fn output_has_both_streams_under_headings() {
    assert_eq!(combine_output("A", "B"), "STDOUT:\nA\n\nSTDERR:\nB");
}

#[test]
fn output_of_nothing_is_empty() {
    assert_eq!(combine_output("", ""), "");
}

#[test]
fn long_line_is_clipped_with_an_ellipsis() {
    let line = "x".repeat(200);
    let shown = clip_line(&line, 60);
    assert_eq!(shown, format!("{}...", "x".repeat(57)));
    assert_eq!(shown.chars().count(), 60);
}

#[test]
fn line_that_fits_is_unchanged() {
    assert_eq!(clip_line("hello", 60), "hello");
    assert_eq!(clip_line(&"y".repeat(60), 60), "y".repeat(60));
}

#[test]
fn clipping_counts_characters_not_bytes() {
    let line = "é".repeat(10);
    assert_eq!(clip_line(&line, 8), format!("{}...", "é".repeat(5)));
}

#[test]
fn very_narrow_box_shows_only_the_ellipsis() {
    assert_eq!(clip_line("abcdef", 2), "...");
}

#[test]
fn padding_fills_to_the_width() {
    assert_eq!(pad_to("ab", 5), "ab   ");
    assert_eq!(pad_to("abcdef", 3), "abcdef");
    assert_eq!(pad_to("", 0), "");
}
