//! The per-line display pipeline: escapes, tab and end marks, blank-line
//! squeezing and numbering, folded over the lines of the concatenated text.
use vstd::prelude::*;
use crate::args::RatFlags;
use crate::text::{
    decimal, escaped, tabs_shown, lines_of, join_lines, views, split_lines, escape_nonprinting,
    show_tabs, push_decimal, copy_chars, append_chars,
};

verus! {

/// How `line` reads after the character-level options: non-printing
/// escapes first, then tabs, then the end mark.
pub open spec fn shown(line: Seq<char>, f: RatFlags) -> Seq<char> {
    let a = if f.show_nonprinting {
        escaped(line)
    } else {
        line
    };
    let b = if f.show_tabs {
        tabs_shown(a)
    } else {
        a
    };
    if f.show_ends {
        b.push('$')
    } else {
        b
    }
}

/// Whether a line whose original content is `line` carries a number.
pub open spec fn gets_number(line: Seq<char>, f: RatFlags) -> bool {
    if f.number_nonblank {
        line.len() > 0
    } else {
        f.output_nums
    }
}

/// `s` behind the number `n` and four spaces.
pub open spec fn numbered(n: nat, s: Seq<char>) -> Seq<char> {
    decimal(n) + seq![' ', ' ', ' ', ' '] + s
}

/// Output so far, the next line number, and whether the last emitted
/// line was blank.
pub struct RenderState {
    pub out: Seq<Seq<char>>,
    pub count: nat,
    pub prev_empty: bool,
}

/// The effect of one input line on the state.
pub open spec fn step(st: RenderState, line: Seq<char>, f: RatFlags) -> RenderState {
    let s = shown(line, f);
    if f.squeeze_blank && s.len() == 0 && st.prev_empty {
        st
    } else {
        let prev = if f.squeeze_blank {
            s.len() == 0
        } else {
            st.prev_empty
        };
        if gets_number(line, f) {
            RenderState {
                out: st.out.push(numbered(st.count, s)),
                count: st.count + 1,
                prev_empty: prev,
            }
        } else {
            RenderState { out: st.out.push(s), count: st.count, prev_empty: prev }
        }
    }
}

/// The state after all of `ls`, starting from line number 1.
pub open spec fn render_state(ls: Seq<Seq<char>>, f: RatFlags) -> RenderState
    decreases ls.len(),
{
    if ls.len() == 0 {
        RenderState { out: seq![], count: 1, prev_empty: false }
    } else {
        step(render_state(ls.drop_last(), f), ls.last(), f)
    }
}

/// The output lines for the text `t` under `f`.
pub open spec fn rendered(t: Seq<char>, f: RatFlags) -> Seq<Seq<char>> {
    render_state(lines_of(t), f).out
}

/// `line` after the character-level options; see `shown`.
pub fn render_line(line: &Vec<char>, flags: RatFlags) -> (r: Vec<char>)
    ensures
        r@ == shown(line@, flags),
{
    let a = if flags.show_nonprinting {
        escape_nonprinting(line)
    } else {
        copy_chars(line)
    };
    let mut b = if flags.show_tabs {
        show_tabs(&a)
    } else {
        a
    };
    if flags.show_ends {
        b.push('$');
    }
    b
}

/// The output lines for `lines`, numbered from 1 and squeezed as `flags` say.
pub fn render_lines(lines: &Vec<Vec<char>>, flags: RatFlags) -> (r: Vec<Vec<char>>)
    ensures
        views(r@) == render_state(views(lines@), flags).out,
{
    let mut out: Vec<Vec<char>> = Vec::new();
    let mut count: u128 = 1;
    let mut prev_empty = false;
    let mut i: usize = 0;
    proof {
        assert(views(out@) =~= Seq::<Seq<char>>::empty());
        assert(views(lines@).take(0) =~= Seq::<Seq<char>>::empty());
    }
    while i < lines.len()
        invariant
            i <= lines.len(),
            render_state(views(lines@).take(i as int), flags) == (RenderState {
                out: views(out@),
                count: count as nat,
                prev_empty,
            }),
            count <= i + 1,
        decreases lines.len() - i,
    {
        let line = &lines[i];
        proof {
            assert(views(lines@).take(i + 1).drop_last() =~= views(lines@).take(i as int));
            assert(views(lines@).take(i + 1).last() == line@);
        }
        let s = render_line(line, flags);
        let blank = s.len() == 0;
        if !(flags.squeeze_blank && blank && prev_empty) {
            if flags.squeeze_blank {
                prev_empty = blank;
            }
            let ghost before = views(out@);
            if (flags.number_nonblank && line.len() > 0) || (!flags.number_nonblank
                && flags.output_nums) {
                let mut l: Vec<char> = Vec::new();
                push_decimal(&mut l, count);
                l.push(' ');
                l.push(' ');
                l.push(' ');
                l.push(' ');
                append_chars(&mut l, &s);
                proof {
                    assert(l@ =~= numbered(count as nat, s@));
                }
                out.push(l);
                count = count + 1;
            } else {
                out.push(s);
            }
            proof {
                assert(views(out@) =~= before.push(out@.last()@));
            }
        }
        i = i + 1;
    }
    proof {
        assert(views(lines@).take(lines.len() as int) =~= views(lines@));
    }
    out
}

/// The output lines for the text `data`: its lines, each rendered under `flags`.
pub fn render_text(data: &Vec<char>, flags: RatFlags) -> (r: Vec<Vec<char>>)
    ensures
        views(r@) == rendered(data@, flags),
{
    let lines = split_lines(data);
    render_lines(&lines, flags)
}

/// The output as one text: each rendered line followed by a line feed.
pub fn render_joined(data: &Vec<char>, flags: RatFlags) -> (r: Vec<char>)
    ensures
        r@ == join_lines(rendered(data@, flags)),
{
    let lines = render_text(data, flags);
    let mut out: Vec<char> = Vec::new();
    let mut i: usize = 0;
    proof {
        assert(views(lines@).take(0) =~= Seq::<Seq<char>>::empty());
    }
    while i < lines.len()
        invariant
            i <= lines.len(),
            out@ == join_lines(views(lines@).take(i as int)),
        decreases lines.len() - i,
    {
        proof {
            assert(views(lines@).take(i + 1).drop_last() =~= views(lines@).take(i as int));
        }
        append_chars(&mut out, &lines[i]);
        out.push('\n');
        i = i + 1;
    }
    proof {
        assert(views(lines@).take(lines.len() as int) =~= views(lines@));
    }
    out
}

} // verus!
