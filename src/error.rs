//! The two kinds of failure that a run can report.
use vstd::prelude::*;

verus! {

#[derive(Clone, Copy, Debug, PartialEq, Eq, Structural)]
pub enum RatErrorType {
    /// A flag token that names no known option.
    InvalidFlag,
    /// An input path that could not be read.
    NoFileFound,
}

/// A failure, with the text that is shown for it.
#[derive(Debug)]
pub struct RatError {
    pub error: RatErrorType,
    pub message: Vec<char>,
}

impl View for RatError {
    type V = (RatErrorType, Seq<char>);

    open spec fn view(&self) -> (RatErrorType, Seq<char>) {
        (self.error, self.message@)
    }
}

/// `Invalid flag '<name>'`.
pub open spec fn invalid_flag_text(name: Seq<char>) -> Seq<char> {
    seq!['I', 'n', 'v', 'a', 'l', 'i', 'd', ' ', 'f', 'l', 'a', 'g', ' ', '\''] + name + seq!['\'']
}

/// `<path>: <reason>`.
pub open spec fn unreadable_text(path: Seq<char>, reason: Seq<char>) -> Seq<char> {
    path + seq![':', ' '] + reason
}

/// The line that follows an invalid-flag message.
pub open spec fn help_hint() -> Seq<char> {
    seq![
        'T', 'r', 'y', ' ', '\'', 'r', 'a', 't', ' ', '-', '-', 'h', 'e', 'l', 'p', '\'', ' ',
        'f', 'o', 'r', ' ', 'm', 'o', 'r', 'e', ' ', 'i', 'n', 'f', 'o', 'r', 'm', 'a', 't',
        'i', 'o', 'n', '.',
    ]
}

/// The lines written to the error stream for `e`: its message, then, for an
/// invalid flag, a hint to consult the help.
pub open spec fn report_lines(e: (RatErrorType, Seq<char>)) -> Seq<Seq<char>> {
    if e.0 == RatErrorType::InvalidFlag {
        seq![e.1, help_hint()]
    } else {
        seq![e.1]
    }
}

impl RatError {
    pub fn new(error: RatErrorType, message: Vec<char>) -> (r: RatError)
        ensures
            r@ == (error, message@),
    {
        RatError { error, message }
    }

    /// The error for a flag token whose name, hyphens removed, is `name`.
    pub fn invalid_flag(name: &Vec<char>) -> (r: RatError)
        ensures
            r@ == (RatErrorType::InvalidFlag, invalid_flag_text(name@)),
    {
        let mut m: Vec<char> = vec![
            'I', 'n', 'v', 'a', 'l', 'i', 'd', ' ', 'f', 'l', 'a', 'g',
            ' ', '\'',
        ];
        crate::text::append_chars(&mut m, name);
        m.push('\'');
        RatError::new(RatErrorType::InvalidFlag, m)
    }

    /// The error for an input at `path` that could not be read for `reason`.
    pub fn unreadable(path: &Vec<char>, reason: &Vec<char>) -> (r: RatError)
        ensures
            r@ == (RatErrorType::NoFileFound, unreadable_text(path@, reason@)),
    {
        let mut m = crate::text::copy_chars(path);
        m.push(':');
        m.push(' ');
        crate::text::append_chars(&mut m, reason);
        proof {
            assert(m@ =~= unreadable_text(path@, reason@));
        }
        RatError::new(RatErrorType::NoFileFound, m)
    }

    /// The lines to write to the error stream for this error.
    pub fn report(&self) -> (r: Vec<Vec<char>>)
        ensures
            crate::text::views(r@) == report_lines(self@),
    {
        let mut r: Vec<Vec<char>> = Vec::new();
        r.push(crate::text::copy_chars(&self.message));
        if self.error == RatErrorType::InvalidFlag {
            let hint: Vec<char> = vec![
                'T', 'r', 'y', ' ', '\'', 'r', 'a', 't', ' ', '-', '-', 'h', 'e', 'l', 'p', '\'',
                ' ', 'f', 'o', 'r', ' ', 'm', 'o', 'r', 'e', ' ', 'i', 'n', 'f', 'o', 'r', 'm',
                'a', 't', 'i', 'o', 'n', '.',
            ];
            r.push(hint);
        }
        proof {
            assert(crate::text::views(r@) =~= report_lines(self@));
        }
        r
    }
}

} // verus!
