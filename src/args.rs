//! Turning argument tokens into display options and a list of inputs.
use vstd::prelude::*;
use crate::error::{RatError, RatErrorType, invalid_flag_text};
use crate::text::{views, copy_chars, same_chars};

verus! {

/// The display options. Non-blank numbering overrides plain numbering.
#[derive(Clone, Copy, Debug, PartialEq, Eq, Structural)]
pub struct RatFlags {
    pub output_nums: bool,
    pub squeeze_blank: bool,
    pub number_nonblank: bool,
    pub show_tabs: bool,
    pub show_ends: bool,
    pub show_nonprinting: bool,
}

pub open spec fn no_flags() -> RatFlags {
    RatFlags {
        output_nums: false,
        squeeze_blank: false,
        number_nonblank: false,
        show_tabs: false,
        show_ends: false,
        show_nonprinting: false,
    }
}

impl RatFlags {
    /// All options off.
    pub fn new() -> (r: RatFlags)
        ensures
            r == no_flags(),
    {
        RatFlags {
            output_nums: false,
            squeeze_blank: false,
            number_nonblank: false,
            show_tabs: false,
            show_ends: false,
            show_nonprinting: false,
        }
    }
}

/// What the command line asks for besides display options.
#[derive(Clone, Copy, Debug, PartialEq, Eq, Structural)]
pub enum Request {
    /// Display the inputs.
    Run,
    /// Print the usage line and stop.
    Help,
    /// Print the version lines and stop.
    Version,
}

/// The option that a flag name selects.
#[derive(Clone, Copy, Debug, PartialEq, Eq, Structural)]
pub enum Switch {
    Number,
    SqueezeBlank,
    NumberNonblank,
    ShowTabs,
    ShowEnds,
    ShowNonprinting,
    Help,
    Version,
}

/// The option named by `name`, a flag token without its leading hyphens.
pub open spec fn switch_named(name: Seq<char>) -> Option<Switch> {
    if name == seq!['n'] || name == seq!['n', 'u', 'm', 'b', 'e', 'r'] {
        Some(Switch::Number)
    } else if name == seq!['s'] || name == seq![
        's', 'q', 'u', 'e', 'e', 'z', 'e', '-', 'b', 'l', 'a', 'n', 'k',
    ] {
        Some(Switch::SqueezeBlank)
    } else if name == seq!['b'] || name == seq![
        'n', 'u', 'm', 'b', 'e', 'r', '-', 'n', 'o', 'n', 'b', 'l', 'a', 'n', 'k',
    ] {
        Some(Switch::NumberNonblank)
    } else if name == seq!['T'] || name == seq!['s', 'h', 'o', 'w', '-', 't', 'a', 'b', 's'] {
        Some(Switch::ShowTabs)
    } else if name == seq!['E'] || name == seq!['s', 'h', 'o', 'w', '-', 'e', 'n', 'd', 's'] {
        Some(Switch::ShowEnds)
    } else if name == seq!['v'] || name == seq![
        's', 'h', 'o', 'w', '-', 'n', 'o', 'n', 'p', 'r', 'i', 'n', 't', 'i', 'n', 'g',
    ] {
        Some(Switch::ShowNonprinting)
    } else if name == seq!['h'] || name == seq!['h', 'e', 'l', 'p'] {
        Some(Switch::Help)
    } else if name == seq!['v', 'e', 'r', 's', 'i', 'o', 'n'] {
        Some(Switch::Version)
    } else {
        None
    }
}

/// `t` without its leading hyphens.
pub open spec fn strip_hyphens(t: Seq<char>) -> Seq<char>
    decreases t.len(),
{
    if t.len() > 0 && t[0] == '-' {
        strip_hyphens(t.drop_first())
    } else {
        t
    }
}

/// A token that is a flag: it starts with a hyphen and is not `-` alone.
pub open spec fn is_flag_token(t: Seq<char>) -> bool {
    t.len() > 0 && t[0] == '-' && t != seq!['-']
}

/// What the parser knows after some tokens: options, inputs in order,
/// the reported error as kind and message, and the request.
pub struct ArgsModel {
    pub flags: RatFlags,
    pub paths: Seq<Seq<char>>,
    pub error: Option<(RatErrorType, Seq<char>)>,
    pub request: Request,
}

pub open spec fn initial_model() -> ArgsModel {
    ArgsModel { flags: no_flags(), paths: seq![], error: None, request: Request::Run }
}

/// The effect of one token. An unknown flag replaces any earlier error, so
/// the last unknown flag is the one reported.
pub open spec fn apply_token(m: ArgsModel, t: Seq<char>) -> ArgsModel {
    if !is_flag_token(t) {
        ArgsModel { paths: m.paths.push(t), ..m }
    } else {
        let name = strip_hyphens(t);
        match switch_named(name) {
            Some(Switch::Number) => ArgsModel {
                flags: RatFlags { output_nums: true, ..m.flags },
                ..m
            },
            Some(Switch::SqueezeBlank) => ArgsModel {
                flags: RatFlags { squeeze_blank: true, ..m.flags },
                ..m
            },
            Some(Switch::NumberNonblank) => ArgsModel {
                flags: RatFlags { number_nonblank: true, ..m.flags },
                ..m
            },
            Some(Switch::ShowTabs) => ArgsModel {
                flags: RatFlags { show_tabs: true, ..m.flags },
                ..m
            },
            Some(Switch::ShowEnds) => ArgsModel {
                flags: RatFlags { show_ends: true, ..m.flags },
                ..m
            },
            Some(Switch::ShowNonprinting) => ArgsModel {
                flags: RatFlags { show_nonprinting: true, ..m.flags },
                ..m
            },
            Some(Switch::Help) => ArgsModel { request: Request::Help, ..m },
            Some(Switch::Version) => ArgsModel { request: Request::Version, ..m },
            None => ArgsModel {
                error: Some((RatErrorType::InvalidFlag, invalid_flag_text(name))),
                ..m
            },
        }
    }
}

/// The parse of `ts`, tokens after the program name. Once help or version
/// is asked for, the tokens that follow are ignored.
pub open spec fn parse_model(ts: Seq<Seq<char>>) -> ArgsModel
    decreases ts.len(),
{
    if ts.len() == 0 {
        initial_model()
    } else {
        let m = parse_model(ts.drop_last());
        if m.request == Request::Run {
            apply_token(m, ts.last())
        } else {
            m
        }
    }
}

/// The parsed command line.
pub struct RatArgs {
    pub flags: RatFlags,
    pub paths: Vec<Vec<char>>,
    pub error: Option<RatError>,
    pub request: Request,
}

impl View for RatArgs {
    type V = ArgsModel;

    open spec fn view(&self) -> ArgsModel {
        ArgsModel {
            flags: self.flags,
            paths: views(self.paths@),
            error: match self.error {
                Some(e) => Some(e@),
                None => None,
            },
            request: self.request,
        }
    }
}

proof fn lemma_strip_from(t: Seq<char>, k: int)
    requires
        0 <= k <= t.len(),
        forall|j: int| 0 <= j < k ==> t[j] == '-',
        k == t.len() || t[k] != '-',
    ensures
        strip_hyphens(t) == t.skip(k),
    decreases k,
{
    if k == 0 {
        assert(t.skip(0) == t);
    } else {
        lemma_strip_from(t.drop_first(), k - 1);
        assert(t.drop_first().skip(k - 1) == t.skip(k));
    }
}

/// `t` without its leading hyphens.
pub fn strip_leading_hyphens(t: &Vec<char>) -> (r: Vec<char>)
    ensures
        r@ == strip_hyphens(t@),
{
    let mut k: usize = 0;
    while k < t.len() && t[k] == '-'
        invariant
            k <= t.len(),
            forall|j: int| 0 <= j < k ==> t@[j] == '-',
        decreases t.len() - k,
    {
        k = k + 1;
    }
    let mut out: Vec<char> = Vec::new();
    let mut i: usize = k;
    while i < t.len()
        invariant
            k <= i <= t.len(),
            out@ == t@.subrange(k as int, i as int),
        decreases t.len() - i,
    {
        out.push(t[i]);
        proof {
            assert(out@ =~= t@.subrange(k as int, i + 1));
        }
        i = i + 1;
    }
    proof {
        lemma_strip_from(t@, k as int);
        assert(out@ =~= t@.skip(k as int));
    }
    out
}

/// The option named by `name`; see `switch_named`.
pub fn switch_of(name: &Vec<char>) -> (r: Option<Switch>)
    ensures
        r == switch_named(name@),
{
    let k_n: Vec<char> = vec!['n'];
    let k_number: Vec<char> = vec!['n', 'u', 'm', 'b', 'e', 'r'];
    let k_s: Vec<char> = vec!['s'];
    let k_squeeze_blank: Vec<char> = vec![
        's', 'q', 'u', 'e', 'e', 'z', 'e', '-', 'b', 'l', 'a', 'n',
        'k',
    ];
    let k_b: Vec<char> = vec!['b'];
    let k_number_nonblank: Vec<char> = vec![
        'n', 'u', 'm', 'b', 'e', 'r', '-', 'n', 'o', 'n', 'b', 'l',
        'a', 'n', 'k',
    ];
    let k_t_upper: Vec<char> = vec!['T'];
    let k_show_tabs: Vec<char> = vec!['s', 'h', 'o', 'w', '-', 't', 'a', 'b', 's'];
    let k_e_upper: Vec<char> = vec!['E'];
    let k_show_ends: Vec<char> = vec!['s', 'h', 'o', 'w', '-', 'e', 'n', 'd', 's'];
    let k_v: Vec<char> = vec!['v'];
    let k_show_nonprinting: Vec<char> = vec![
        's', 'h', 'o', 'w', '-', 'n', 'o', 'n', 'p', 'r', 'i', 'n',
        't', 'i', 'n', 'g',
    ];
    let k_h: Vec<char> = vec!['h'];
    let k_help: Vec<char> = vec!['h', 'e', 'l', 'p'];
    let k_version: Vec<char> = vec!['v', 'e', 'r', 's', 'i', 'o', 'n'];
    proof {
        assert(k_n@ =~= seq!['n']);
        assert(k_number@ =~= seq!['n', 'u', 'm', 'b', 'e', 'r']);
        assert(k_s@ =~= seq!['s']);
        assert(k_squeeze_blank@ =~= seq![
            's', 'q', 'u', 'e', 'e', 'z', 'e', '-', 'b', 'l', 'a', 'n',
            'k',
        ]);
        assert(k_b@ =~= seq!['b']);
        assert(k_number_nonblank@ =~= seq![
            'n', 'u', 'm', 'b', 'e', 'r', '-', 'n', 'o', 'n', 'b', 'l',
            'a', 'n', 'k',
        ]);
        assert(k_t_upper@ =~= seq!['T']);
        assert(k_show_tabs@ =~= seq!['s', 'h', 'o', 'w', '-', 't', 'a', 'b', 's']);
        assert(k_e_upper@ =~= seq!['E']);
        assert(k_show_ends@ =~= seq!['s', 'h', 'o', 'w', '-', 'e', 'n', 'd', 's']);
        assert(k_v@ =~= seq!['v']);
        assert(k_show_nonprinting@ =~= seq![
            's', 'h', 'o', 'w', '-', 'n', 'o', 'n', 'p', 'r', 'i', 'n',
            't', 'i', 'n', 'g',
        ]);
        assert(k_h@ =~= seq!['h']);
        assert(k_help@ =~= seq!['h', 'e', 'l', 'p']);
        assert(k_version@ =~= seq!['v', 'e', 'r', 's', 'i', 'o', 'n']);
    }
    if same_chars(name, &k_n) || same_chars(name, &k_number) {
        Some(Switch::Number)
    } else if same_chars(name, &k_s) || same_chars(name, &k_squeeze_blank) {
        Some(Switch::SqueezeBlank)
    } else if same_chars(name, &k_b) || same_chars(name, &k_number_nonblank) {
        Some(Switch::NumberNonblank)
    } else if same_chars(name, &k_t_upper) || same_chars(name, &k_show_tabs) {
        Some(Switch::ShowTabs)
    } else if same_chars(name, &k_e_upper) || same_chars(name, &k_show_ends) {
        Some(Switch::ShowEnds)
    } else if same_chars(name, &k_v) || same_chars(name, &k_show_nonprinting) {
        Some(Switch::ShowNonprinting)
    } else if same_chars(name, &k_h) || same_chars(name, &k_help) {
        Some(Switch::Help)
    } else if same_chars(name, &k_version) {
        Some(Switch::Version)
    } else {
        None
    }
}

impl RatArgs {
    /// No options, no inputs, no error.
    pub fn new() -> (r: RatArgs)
        ensures
            r@ == initial_model(),
    {
        let r = RatArgs {
            flags: RatFlags::new(),
            paths: Vec::new(),
            error: None,
            request: Request::Run,
        };
        proof {
            assert(r@.paths =~= Seq::<Seq<char>>::empty());
        }
        r
    }

    /// Parses the tokens that follow the program name.
    pub fn parse(args: &Vec<Vec<char>>) -> (r: RatArgs)
        ensures
            r@ == parse_model(views(args@)),
    {
        let mut r = RatArgs::new();
        let mut i: usize = 0;
        while i < args.len()
            invariant
                i <= args.len(),
                r@ == parse_model(views(args@).take(i as int)),
            decreases args.len() - i,
        {
            let ghost before = r@;
            let arg = &args[i];
            proof {
                assert(views(args@).take(i + 1).drop_last() =~= views(args@).take(i as int));
                assert(views(args@).take(i + 1).last() == arg@);
            }
            if r.request == Request::Run {
                let dash = arg.len() == 1 && arg[0] == '-';
                if arg.len() == 0 || arg[0] != '-' || dash {
                    proof {
                        if dash {
                            assert(arg@ =~= seq!['-']);
                        }
                        assert(!is_flag_token(arg@));
                    }
                    r.paths.push(copy_chars(arg));
                    proof {
                        assert(r@.paths =~= before.paths.push(arg@));
                    }
                } else {
                    proof {
                        assert(is_flag_token(arg@));
                    }
                    let name = strip_leading_hyphens(arg);
                    match switch_of(&name) {
                        Some(Switch::Number) => r.flags.output_nums = true,
                        Some(Switch::SqueezeBlank) => r.flags.squeeze_blank = true,
                        Some(Switch::NumberNonblank) => r.flags.number_nonblank = true,
                        Some(Switch::ShowTabs) => r.flags.show_tabs = true,
                        Some(Switch::ShowEnds) => r.flags.show_ends = true,
                        Some(Switch::ShowNonprinting) => r.flags.show_nonprinting = true,
                        Some(Switch::Help) => r.request = Request::Help,
                        Some(Switch::Version) => r.request = Request::Version,
                        None => r.error = Some(RatError::invalid_flag(&name)),
                    }
                }
            }
            i = i + 1;
        }
        proof {
            assert(views(args@).take(args.len() as int) =~= views(args@));
        }
        r
    }
}

} // verus!
