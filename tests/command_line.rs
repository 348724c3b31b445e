use rat::args::{switch_of, strip_leading_hyphens, RatArgs, Request, Switch};
use rat::error::{RatError, RatErrorType};
use rat::render::render_text;
use rat::session::{choose_your_adventure, plan_run, Adventure, Concatenation};

fn chars(s: &str) -> Vec<char> {
    s.chars().collect()
}

fn text(v: &[char]) -> String {
    v.iter().collect()
}

fn tokens(ts: &[&str]) -> Vec<Vec<char>> {
    ts.iter().map(|t| chars(t)).collect()
}

fn paths(a: &RatArgs) -> Vec<String> {
    a.paths.iter().map(|p| text(p)).collect()
}

#[test]
fn parse_reads_short_and_long_flags() {
    let a = RatArgs::parse(&tokens(&["-n", "--squeeze-blank", "-T", "--show-ends", "-v", "f"]));
    assert!(a.flags.output_nums);
    assert!(a.flags.squeeze_blank);
    assert!(a.flags.show_tabs);
    assert!(a.flags.show_ends);
    assert!(a.flags.show_nonprinting);
    assert!(!a.flags.number_nonblank);
    assert!(a.error.is_none());
    assert_eq!(a.request, Request::Run);
    assert_eq!(paths(&a), vec!["f"]);
}

#[test]
fn parse_keeps_paths_in_order_with_dash() {
    let a = RatArgs::parse(&tokens(&["b.txt", "-", "a.txt", "--number-nonblank"]));
    assert_eq!(paths(&a), vec!["b.txt", "-", "a.txt"]);
    assert!(a.flags.number_nonblank);
}

#[test]
fn parse_strips_any_number_of_hyphens() {
    let a = RatArgs::parse(&tokens(&["---E"]));
    assert!(a.flags.show_ends);
    assert_eq!(text(&strip_leading_hyphens(&chars("--x-y"))), "x-y");
}

#[test]
fn invalid_flag_is_reported() {
    let a = RatArgs::parse(&tokens(&["--bogus", "f"]));
    let e = a.error.expect("an error");
    assert_eq!(e.error, RatErrorType::InvalidFlag);
    assert_eq!(text(&e.message), "Invalid flag 'bogus'");
    assert!(text(&e.message).contains("bogus"));
    let report: Vec<String> = e.report().iter().map(|l| text(l)).collect();
    assert_eq!(report, vec!["Invalid flag 'bogus'", "Try 'rat --help' for more information."]);
}

#[test]
fn last_invalid_flag_is_reported() {
    let a = RatArgs::parse(&tokens(&["-x", "-n", "--y"]));
    assert_eq!(text(&a.error.expect("an error").message), "Invalid flag 'y'");
    assert!(a.flags.output_nums);
}

#[test]
fn double_hyphen_alone_is_invalid() {
    let a = RatArgs::parse(&tokens(&["--"]));
    assert_eq!(text(&a.error.expect("an error").message), "Invalid flag ''");
}

#[test]
fn help_stops_parsing() {
    let a = RatArgs::parse(&tokens(&["-n", "--help", "--bogus", "f"]));
    assert_eq!(a.request, Request::Help);
    assert!(a.error.is_none());
    assert!(a.paths.is_empty());
    let b = RatArgs::parse(&tokens(&["--version", "-n"]));
    assert_eq!(b.request, Request::Version);
    assert!(!b.flags.output_nums);
    let c = RatArgs::parse(&tokens(&["-h"]));
    assert_eq!(c.request, Request::Help);
}

#[test]
fn switch_table() {
    assert_eq!(switch_of(&chars("b")), Some(Switch::NumberNonblank));
    assert_eq!(switch_of(&chars("show-nonprinting")), Some(Switch::ShowNonprinting));
    assert_eq!(switch_of(&chars("version")), Some(Switch::Version));
    assert_eq!(switch_of(&chars("V")), None);
}

#[test]
fn new_args_are_empty() {
    let a = RatArgs::new();
    assert!(a.paths.is_empty());
    assert!(a.error.is_none());
    assert_eq!(a.request, Request::Run);
    assert!(!a.flags.output_nums && !a.flags.show_ends);
}

#[test]
fn adventure_depends_on_paths() {
    assert_eq!(choose_your_adventure(&RatArgs::parse(&tokens(&["-n"]))), Adventure::Repl);
    assert_eq!(choose_your_adventure(&RatArgs::parse(&tokens(&["x"]))), Adventure::Run);
}

#[test]
fn plan_stops_at_standard_input() {
    let p = plan_run(&tokens(&["a", "b", "-", "c"]));
    let files: Vec<String> = p.files.iter().map(|f| text(f)).collect();
    assert_eq!(files, vec!["a", "b"]);
    assert!(p.then_echo);
    let q = plan_run(&tokens(&["a", "c"]));
    assert_eq!(q.files.len(), 2);
    assert!(!q.then_echo);
}

#[test]
fn concatenation_keeps_order_and_numbering() {
    let mut c = Concatenation::new();
    assert!(c.absorb(&chars("fileA"), Ok(chars("a1\na2\n"))).is_none());
    assert!(c.absorb(&chars("fileB"), Ok(chars("b1\n"))).is_none());
    assert_eq!(text(&c.text), "a1\na2\nb1\n");
    let mut f = rat::args::RatFlags::new();
    f.output_nums = true;
    let got: Vec<String> = render_text(&c.text, f).iter().map(|l| text(l)).collect();
    assert_eq!(got, vec!["1    a1", "2    a2", "3    b1"]);
}

#[test]
fn unreadable_input_does_not_stop_the_next() {
    let mut c = Concatenation::new();
    let e = c
        .absorb(&chars("missing.txt"), Err(chars("No such file or directory (os error 2)")))
        .expect("an error");
    assert_eq!(e.error, RatErrorType::NoFileFound);
    assert_eq!(text(&e.message), "missing.txt: No such file or directory (os error 2)");
    assert_eq!(e.report().len(), 1);
    assert!(c.absorb(&chars("ok.txt"), Ok(chars("fine\n"))).is_none());
    assert_eq!(text(&c.text), "fine\n");
}

#[test]
fn error_new_keeps_fields() {
    let e = RatError::new(RatErrorType::NoFileFound, chars("m"));
    assert_eq!(e.error, RatErrorType::NoFileFound);
    assert_eq!(text(&e.message), "m");
}
