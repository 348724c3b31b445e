use rat::args::RatFlags;
use rat::render::{render_joined, render_line, render_text};
use rat::text::{escape_nonprinting, push_decimal, show_tabs, split_lines};

fn chars(s: &str) -> Vec<char> {
    s.chars().collect()
}

fn text(v: &[char]) -> String {
    v.iter().collect()
}

fn lines(data: &str, flags: RatFlags) -> Vec<String> {
    render_text(&chars(data), flags).iter().map(|l| text(l)).collect()
}

fn no_flags() -> RatFlags {
    RatFlags::new()
}

#[test]
fn plain_output_keeps_lines() {
    assert_eq!(lines("a\n\nb\n", no_flags()), vec!["a", "", "b"]);
    assert_eq!(text(&render_joined(&chars("a\n\nb\n"), no_flags())), "a\n\nb\n");
}

#[test]
fn plain_output_normalizes_line_ends() {
    assert_eq!(text(&render_joined(&chars("a\r\nb"), no_flags())), "a\nb\n");
    assert_eq!(text(&render_joined(&chars(""), no_flags())), "");
    assert_eq!(text(&render_joined(&chars("\n"), no_flags())), "\n");
}

#[test]
fn split_keeps_bare_carriage_return_at_end() {
    let got: Vec<String> = split_lines(&chars("x\r\ny\r")).iter().map(|l| text(l)).collect();
    assert_eq!(got, vec!["x", "y\r"]);
}

#[test]
fn number_all_numbers_blank_lines() {
    let mut f = no_flags();
    f.output_nums = true;
    assert_eq!(lines("a\n\nb\n", f), vec!["1    a", "2    ", "3    b"]);
}

#[test]
fn number_nonblank_skips_blank_lines() {
    let mut f = no_flags();
    f.number_nonblank = true;
    assert_eq!(lines("a\n\nb\n", f), vec!["1    a", "", "2    b"]);
}

#[test]
fn number_nonblank_wins_over_number_all() {
    let mut f = no_flags();
    f.number_nonblank = true;
    f.output_nums = true;
    assert_eq!(lines("a\n\nb\n", f), vec!["1    a", "", "2    b"]);
}

#[test]
fn numbers_reach_two_digits() {
    let mut f = no_flags();
    f.output_nums = true;
    let got = lines("1\n2\n3\n4\n5\n6\n7\n8\n9\nten\n", f);
    assert_eq!(got.len(), 10);
    assert_eq!(got[9], "10    ten");
    let mut v = Vec::new();
    push_decimal(&mut v, 1230);
    assert_eq!(text(&v), "1230");
}

#[test]
fn squeeze_blank_collapses_runs() {
    let mut f = no_flags();
    f.squeeze_blank = true;
    assert_eq!(lines("a\n\n\n\nb\n", f), vec!["a", "", "b"]);
}

#[test]
fn squeeze_blank_with_numbering() {
    let mut f = no_flags();
    f.squeeze_blank = true;
    f.output_nums = true;
    assert_eq!(lines("a\n\n\n", f), vec!["1    a", "2    "]);
}

#[test]
fn squeeze_does_nothing_with_end_marks() {
    let mut f = no_flags();
    f.squeeze_blank = true;
    f.show_ends = true;
    assert_eq!(lines("\n\n", f), vec!["$", "$"]);
}

#[test]
fn show_ends_marks_each_line() {
    let mut f = no_flags();
    f.show_ends = true;
    assert_eq!(lines("a\nb\n", f), vec!["a$", "b$"]);
}

#[test]
fn show_tabs_marks_tabs_only() {
    let mut f = no_flags();
    f.show_tabs = true;
    assert_eq!(lines("x\ty z\n", f), vec!["x^Iy z"]);
    assert_eq!(text(&show_tabs(&chars("\t\t"))), "^I^I");
}

#[test]
fn nonprinting_escapes_control_characters() {
    let mut f = no_flags();
    f.show_nonprinting = true;
    assert_eq!(lines("a\u{1}b\n", f), vec!["a^Ab"]);
    assert_eq!(text(&escape_nonprinting(&chars("\u{0}\u{1b}\u{1f} \u{7f}"))), "^@^[^_ \u{7f}");
    assert_eq!(text(&escape_nonprinting(&chars("\t"))), "^I");
}

#[test]
fn escapes_come_before_end_mark() {
    let mut f = no_flags();
    f.show_nonprinting = true;
    f.show_tabs = true;
    f.show_ends = true;
    assert_eq!(text(&render_line(&chars("\u{2}\t"), f)), "^B^I$");
}

#[test]
fn non_blank_uses_original_line_for_numbering() {
    let mut f = no_flags();
    f.number_nonblank = true;
    f.show_ends = true;
    assert_eq!(lines("\nx\n", f), vec!["$", "1    x$"]);
}
