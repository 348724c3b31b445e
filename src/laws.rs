//! Properties of the display pipeline that hold for every input.
use vstd::prelude::*;
use crate::args::{RatFlags, no_flags};
use crate::render::{shown, numbered, render_state, rendered};
use crate::text::{decimal, tabs_shown, lines_of, pieces, strip_cr, join_lines};

verus! {

proof fn lemma_decimal_nonempty(n: nat)
    ensures
        decimal(n).len() >= 1,
    decreases n,
{
    if n >= 10 {
        lemma_decimal_nonempty(n / 10);
    }
}

/// With no option set, the output lines are the input's lines unchanged.
pub proof fn law_plain_output(t: Seq<char>)
    ensures
        rendered(t, no_flags()) == lines_of(t),
{
    lemma_plain_lines(lines_of(t));
}

proof fn lemma_join_pieces(s: Seq<char>)
    requires
        forall|i: int| 0 <= i < s.len() ==> s[i] != '\r',
    ensures
        pieces(s).len() >= 1,
        join_lines(pieces(s).drop_last().map_values(|l: Seq<char>| strip_cr(l))) + pieces(s).last()
            == s,
        s.len() > 0 && pieces(s).last().len() > 0 ==> pieces(s).last().last() == s.last(),
    decreases s.len(),
{
    if s.len() == 0 {
        assert(pieces(s).drop_last().map_values(|l: Seq<char>| strip_cr(l)) =~= Seq::<
            Seq<char>,
        >::empty());
        assert(s =~= Seq::<char>::empty() + Seq::<char>::empty());
    } else {
        let init = s.drop_last();
        lemma_join_pieces(init);
        let p = pieces(init);
        let m = p.drop_last().map_values(|l: Seq<char>| strip_cr(l));
        assert(s =~= init.push(s.last()));
        if s.last() == '\n' {
            assert(pieces(s).drop_last() =~= p);
            assert(strip_cr(p.last()) == p.last()) by {
                if p.last().len() > 0 {
                    assert(p.last().last() == init.last());
                }
            }
            assert(p.map_values(|l: Seq<char>| strip_cr(l)) =~= m.push(p.last()));
            assert(m.push(p.last()).drop_last() =~= m);
            assert(join_lines(m.push(p.last())) == join_lines(m) + p.last().push('\n'));
            assert(join_lines(m) + p.last().push('\n') =~= (join_lines(m) + p.last()).push('\n'));
            assert(join_lines(pieces(s).drop_last().map_values(|l: Seq<char>| strip_cr(l)))
                + pieces(s).last() =~= s);
        } else {
            assert(pieces(s).drop_last() =~= p.drop_last());
            assert(join_lines(m) + p.last().push(s.last()) =~= (join_lines(m) + p.last()).push(
                s.last(),
            ));
        }
    }
}

/// Text without carriage returns that is empty or ends at a line feed is
/// its lines, each followed by a line feed: the plain output reproduces it.
pub proof fn law_plain_round_trip(t: Seq<char>)
    requires
        forall|i: int| 0 <= i < t.len() ==> t[i] != '\r',
        t.len() == 0 || t.last() == '\n',
    ensures
        join_lines(rendered(t, no_flags())) == t,
{
    law_plain_output(t);
    lemma_join_pieces(t);
    if t.len() > 0 {
        crate::text::lemma_pieces_len(t.drop_last());
    }
    assert(pieces(t).last().len() == 0);
    assert(join_lines(lines_of(t)) + pieces(t).last() =~= join_lines(lines_of(t)));
}

proof fn lemma_plain_lines(ls: Seq<Seq<char>>)
    ensures
        render_state(ls, no_flags()).out == ls,
        render_state(ls, no_flags()).count == 1,
        !render_state(ls, no_flags()).prev_empty,
    decreases ls.len(),
{
    if ls.len() > 0 {
        lemma_plain_lines(ls.drop_last());
        assert(ls.drop_last().push(ls.last()) =~= ls);
    }
}

/// With plain numbering and no squeezing, every line is emitted and the
/// line at position `j` carries the number `j + 1`.
pub proof fn law_number_all(ls: Seq<Seq<char>>, f: RatFlags)
    requires
        f.output_nums,
        !f.number_nonblank,
        !f.squeeze_blank,
    ensures
        render_state(ls, f).out.len() == ls.len(),
        forall|j: int|
            0 <= j < ls.len() ==> #[trigger] render_state(ls, f).out[j] == numbered(
                (j + 1) as nat,
                shown(ls[j], f),
            ),
    decreases ls.len(),
{
    if ls.len() > 0 {
        law_number_all(ls.drop_last(), f);
        lemma_count_all(ls, f);
        assert forall|j: int| 0 <= j < ls.len() implies #[trigger] render_state(ls, f).out[j]
            == numbered((j + 1) as nat, shown(ls[j], f)) by {
            if j < ls.len() - 1 {
                assert(render_state(ls.drop_last(), f).out[j] == numbered(
                    (j + 1) as nat,
                    shown(ls.drop_last()[j], f),
                ));
            }
        }
    }
}

proof fn lemma_count_all(ls: Seq<Seq<char>>, f: RatFlags)
    requires
        f.output_nums,
        !f.number_nonblank,
        !f.squeeze_blank,
    ensures
        render_state(ls, f).count == ls.len() + 1,
    decreases ls.len(),
{
    if ls.len() > 0 {
        lemma_count_all(ls.drop_last(), f);
    }
}

/// The number of non-empty lines in `ls`.
pub open spec fn nonblank_count(ls: Seq<Seq<char>>) -> nat
    decreases ls.len(),
{
    if ls.len() == 0 {
        0
    } else {
        nonblank_count(ls.drop_last()) + if ls.last().len() > 0 {
            1nat
        } else {
            0nat
        }
    }
}

/// With non-blank numbering and no squeezing, every line is emitted; an
/// empty line carries no number, and a non-empty one carries one more than
/// the number of non-empty lines before it.
pub proof fn law_number_nonblank(ls: Seq<Seq<char>>, f: RatFlags)
    requires
        f.number_nonblank,
        !f.squeeze_blank,
    ensures
        render_state(ls, f).out.len() == ls.len(),
        render_state(ls, f).count == nonblank_count(ls) + 1,
        forall|j: int|
            0 <= j < ls.len() ==> #[trigger] render_state(ls, f).out[j] == if ls[j].len() > 0 {
                numbered(nonblank_count(ls.take(j)) + 1, shown(ls[j], f))
            } else {
                shown(ls[j], f)
            },
    decreases ls.len(),
{
    if ls.len() > 0 {
        let init = ls.drop_last();
        law_number_nonblank(init, f);
        assert(ls.take(ls.len() - 1) =~= init);
        assert forall|j: int| 0 <= j < ls.len() implies #[trigger] render_state(ls, f).out[j]
            == if ls[j].len() > 0 {
            numbered(nonblank_count(ls.take(j)) + 1, shown(ls[j], f))
        } else {
            shown(ls[j], f)
        } by {
            if j < ls.len() - 1 {
                assert(init.take(j) =~= ls.take(j));
                assert(init[j] == ls[j]);
                assert(render_state(init, f).out[j] == if init[j].len() > 0 {
                    numbered(nonblank_count(init.take(j)) + 1, shown(init[j], f))
                } else {
                    shown(init[j], f)
                });
            }
        }
    }
}

/// With squeezing, no two neighbouring output lines are both empty.
pub proof fn law_squeeze(ls: Seq<Seq<char>>, f: RatFlags)
    requires
        f.squeeze_blank,
    ensures
        forall|j: int|
            0 <= j < render_state(ls, f).out.len() - 1 ==> !(
            #[trigger] render_state(ls, f).out[j].len() == 0 && render_state(ls, f).out[j
                + 1].len() == 0),
    decreases ls.len(),
{
    lemma_squeeze_state(ls, f);
}

proof fn lemma_squeeze_state(ls: Seq<Seq<char>>, f: RatFlags)
    requires
        f.squeeze_blank,
    ensures
        render_state(ls, f).out.len() > 0 && render_state(ls, f).out.last().len() == 0
            ==> render_state(ls, f).prev_empty,
        forall|j: int|
            0 <= j < render_state(ls, f).out.len() - 1 ==> !(
            #[trigger] render_state(ls, f).out[j].len() == 0 && render_state(ls, f).out[j
                + 1].len() == 0),
    decreases ls.len(),
{
    if ls.len() > 0 {
        let init = ls.drop_last();
        lemma_squeeze_state(init, f);
        let st = render_state(init, f);
        lemma_decimal_nonempty(st.count);
        let out = render_state(ls, f).out;
        assert forall|j: int| 0 <= j < out.len() - 1 implies !(#[trigger] out[j].len() == 0
            && out[j + 1].len() == 0) by {
            if j + 1 < st.out.len() {
                assert(out[j] == st.out[j] && out[j + 1] == st.out[j + 1]);
            }
        }
    }
}

proof fn lemma_tabs_concat(a: Seq<char>, b: Seq<char>)
    ensures
        tabs_shown(a + b) == tabs_shown(a) + tabs_shown(b),
    decreases b.len(),
{
    if b.len() == 0 {
        assert(a + b =~= a);
        assert(tabs_shown(a) + tabs_shown(b) =~= tabs_shown(a));
    } else {
        lemma_tabs_concat(a, b.drop_last());
        assert((a + b).drop_last() =~= a + b.drop_last());
        assert(tabs_shown(a + b) =~= tabs_shown(a) + tabs_shown(b));
    }
}

proof fn lemma_tabs_free(a: Seq<char>)
    requires
        !a.contains('\t'),
    ensures
        tabs_shown(a) == a,
    decreases a.len(),
{
    if a.len() > 0 {
        assert(!a.drop_last().contains('\t')) by {
            if a.drop_last().contains('\t') {
                let k = choose|k: int| 0 <= k < a.drop_last().len() && a.drop_last()[k] == '\t';
                assert(a[k] == '\t');
            }
        }
        lemma_tabs_free(a.drop_last());
        assert(a[a.len() - 1] != '\t');
        assert(tabs_shown(a) =~= a);
    }
}

/// A tab shows as `^I`; the characters around it are left as they are.
pub proof fn law_tab_shown(before: Seq<char>, after: Seq<char>)
    requires
        !before.contains('\t'),
        !after.contains('\t'),
    ensures
        tabs_shown(before + seq!['\t'] + after) == before + seq!['^', 'I'] + after,
{
    lemma_tabs_concat(before + seq!['\t'], after);
    lemma_tabs_concat(before, seq!['\t']);
    lemma_tabs_free(before);
    lemma_tabs_free(after);
    let tab = seq!['\t'];
    assert(tab.drop_last() =~= Seq::<char>::empty());
    assert(tab.len() == 1 && tab.last() == '\t');
    assert(tabs_shown(tab.drop_last()) == Seq::<char>::empty());
    assert(tabs_shown(seq!['\t']) =~= seq!['^', 'I']);
}

proof fn lemma_pieces_concat(a: Seq<char>, b: Seq<char>)
    requires
        a.len() == 0 || a.last() == '\n',
    ensures
        pieces(a).last().len() == 0,
        pieces(a + b) == pieces(a).drop_last() + pieces(b),
    decreases b.len(),
{
    if b.len() == 0 {
        assert(a + b =~= a);
        if a.len() > 0 {
            crate::text::lemma_pieces_len(a.drop_last());
        }
        assert(pieces(b) =~= seq![Seq::<char>::empty()]);
        assert(pieces(a).drop_last() + pieces(b) =~= pieces(a));
    } else {
        lemma_pieces_concat(a, b.drop_last());
        crate::text::lemma_pieces_len(b.drop_last());
        assert((a + b).drop_last() =~= a + b.drop_last());
        assert((a + b).last() == b.last());
        let pa = pieces(a).drop_last();
        let pb = pieces(b.drop_last());
        if b.last() == '\n' {
            assert((pa + pb).push(Seq::<char>::empty()) =~= pa + pb.push(Seq::<char>::empty()));
        } else {
            assert((pa + pb).update((pa + pb).len() - 1, (pa + pb).last().push(b.last())) =~= pa
                + pb.update(pb.len() - 1, pb.last().push(b.last())));
        }
    }
}

/// Text that ends at a line break, followed by more text, has the lines of
/// the first followed by the lines of the second. Together with
/// `law_number_all`, numbering runs on across the boundary.
pub proof fn law_concat_lines(a: Seq<char>, b: Seq<char>)
    requires
        a.len() == 0 || a.last() == '\n',
    ensures
        lines_of(a + b) == lines_of(a) + lines_of(b),
{
    lemma_pieces_concat(a, b);
    crate::text::lemma_pieces_len(b);
    let pa = pieces(a).drop_last();
    let pb = pieces(b);
    let p = pa + pb;
    assert(p.drop_last() =~= pa + pb.drop_last());
    assert(p.last() == pb.last());
    assert(p.drop_last().map_values(|l: Seq<char>| strip_cr(l)) =~= pa.map_values(
        |l: Seq<char>| strip_cr(l),
    ) + pb.drop_last().map_values(|l: Seq<char>| strip_cr(l)));
    assert(lines_of(a) =~= pa.map_values(|l: Seq<char>| strip_cr(l)));
    if pb.last().len() == 0 {
    } else {
        assert(lines_of(a + b) =~= lines_of(a) + lines_of(b));
    }
}

} // verus!

verus! {

proof fn lemma_state_prefix(l1: Seq<Seq<char>>, l2: Seq<Seq<char>>, f: RatFlags)
    ensures
        render_state(l1, f).out.len() <= render_state(l1 + l2, f).out.len(),
        render_state(l1 + l2, f).out.take(render_state(l1, f).out.len() as int) == render_state(
            l1,
            f,
        ).out,
    decreases l2.len(),
{
    if l2.len() == 0 {
        assert(l1 + l2 =~= l1);
        assert(render_state(l1, f).out.take(render_state(l1, f).out.len() as int) =~= render_state(
            l1,
            f,
        ).out);
    } else {
        lemma_state_prefix(l1, l2.drop_last(), f);
        assert((l1 + l2).drop_last() =~= l1 + l2.drop_last());
        let n = render_state(l1, f).out.len() as int;
        let before = render_state(l1 + l2.drop_last(), f).out;
        let after = render_state(l1 + l2, f).out;
        assert(after.take(n) =~= before.take(n));
    }
}

/// The output for two texts, the first ending at a line break, begins with
/// the output for the first alone.
pub proof fn law_output_prefix(a: Seq<char>, b: Seq<char>, f: RatFlags)
    requires
        a.len() == 0 || a.last() == '\n',
    ensures
        rendered(a, f).len() <= rendered(a + b, f).len(),
        rendered(a + b, f).take(rendered(a, f).len() as int) == rendered(a, f),
{
    law_concat_lines(a, b);
    lemma_state_prefix(lines_of(a), lines_of(b), f);
}

/// Under plain numbering without squeezing, the `k`-th line of the second
/// of two concatenated texts carries the number that follows all the lines
/// of the first: numbering does not restart at the boundary.
pub proof fn law_numbering_continues(a: Seq<char>, b: Seq<char>, f: RatFlags, k: int)
    requires
        a.len() == 0 || a.last() == '\n',
        f.output_nums,
        !f.number_nonblank,
        !f.squeeze_blank,
        0 <= k < lines_of(b).len(),
    ensures
        rendered(a + b, f)[lines_of(a).len() + k] == numbered(
            (lines_of(a).len() + k + 1) as nat,
            shown(lines_of(b)[k], f),
        ),
{
    law_concat_lines(a, b);
    let ls = lines_of(a) + lines_of(b);
    law_number_all(ls, f);
    let j = lines_of(a).len() + k;
    assert(ls[j] == lines_of(b)[k]);
    assert(render_state(ls, f).out[j] == numbered((j + 1) as nat, shown(ls[j], f)));
}

} // verus!
