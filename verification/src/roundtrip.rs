use vstd::prelude::*;

use crate::chars::{is_digit, is_ws};
use crate::date::{date_value_at, lemma_date_seq_roundtrip, spec_date_seq, Date};
use crate::task::{
    boundary, collect_ctx, ctx_at, ctx_seg, date_at, dates_seg, done_seg, due_at, due_marker_at,
    due_seg, find_date, find_due, find_pri, find_proj, find_quote, last_quote, name_seg,
    opt_date_seg, pri_at, pri_seg, proj_at, proj_seg, quote_at, spec_contexts, spec_date_slots,
    spec_done, spec_due, spec_from_string, spec_name, spec_priority, spec_project, spec_serialize,
    token_end, TaskView,
};

verus! {

/// A record token that survives a round trip: non-empty and free of
/// whitespace.
pub open spec fn tok_wf(x: Seq<char>) -> bool {
    x.len() > 0 && forall|k: int| 0 <= k < x.len() ==> !is_ws(#[trigger] x[k])
}

pub open spec fn ctxs_wf(cs: Seq<Seq<char>>) -> bool {
    forall|j: int| 0 <= j < cs.len() ==> tok_wf(#[trigger] cs[j])
}

/// A name that survives the round trip of a fully populated task: it may
/// hold anything but a whitespace-preceded `@`, which the context
/// recognizer would pick up.
pub open spec fn name_wf(n: Seq<char>) -> bool {
    forall|k: int| 1 <= k < n.len() ==> !(is_ws(#[trigger] n[k - 1]) && n[k] == '@')
}

/// A fully populated task whose tokens are well-formed: what the round-trip
/// law speaks of. The named values pin down the payloads of the populated
/// fields.
pub open spec fn rt_wf(t: TaskView, c: char, comp: Date, cre: Date, p: Seq<char>, due: Date) -> bool {
    &&& t.done == true
    &&& t.priority == Some(c)
    &&& 'A' <= c <= 'Z'
    &&& t.complete == Some(comp)
    &&& comp.valid()
    &&& t.create == Some(cre)
    &&& cre.valid()
    &&& t.project == Some(p)
    &&& tok_wf(p)
    &&& t.due == Some(due)
    &&& due.valid()
    &&& ctxs_wf(t.context)
    &&& name_wf(t.name)
}

proof fn lemma_find_pri_skip(s: Seq<char>, a: int, b: int)
    requires
        0 <= a <= b,
        forall|i: int| a <= i < b ==> !pri_at(s, i),
    ensures
        find_pri(s, a) == find_pri(s, b),
    decreases b - a,
{
    if a < b {
        lemma_find_pri_skip(s, a + 1, b);
    }
}

proof fn lemma_find_quote_skip(s: Seq<char>, a: int, b: int)
    requires
        0 <= a <= b,
        forall|i: int| a <= i < b ==> !quote_at(s, i),
    ensures
        find_quote(s, a) == find_quote(s, b),
    decreases b - a,
{
    if a < b {
        lemma_find_quote_skip(s, a + 1, b);
    }
}

proof fn lemma_find_proj_skip(s: Seq<char>, a: int, b: int)
    requires
        0 <= a <= b,
        forall|i: int| a <= i < b ==> !proj_at(s, i),
    ensures
        find_proj(s, a) == find_proj(s, b),
    decreases b - a,
{
    if a < b {
        lemma_find_proj_skip(s, a + 1, b);
    }
}

proof fn lemma_find_date_skip(s: Seq<char>, a: int, b: int)
    requires
        0 <= a <= b,
        forall|i: int| a <= i < b ==> !date_at(s, i),
    ensures
        find_date(s, a) == find_date(s, b),
    decreases b - a,
{
    if a < b {
        lemma_find_date_skip(s, a + 1, b);
    }
}

proof fn lemma_find_due_skip(s: Seq<char>, a: int, b: int)
    requires
        0 <= a <= b,
        forall|i: int| a <= i < b ==> !due_at(s, i),
    ensures
        find_due(s, a) == find_due(s, b),
    decreases b - a,
{
    if a < b {
        lemma_find_due_skip(s, a + 1, b);
    }
}

proof fn lemma_collect_ctx_skip(s: Seq<char>, a: int, b: int)
    requires
        0 <= a <= b,
        forall|i: int| a <= i < b ==> !ctx_at(s, i),
    ensures
        collect_ctx(s, a) == collect_ctx(s, b),
    decreases b - a,
{
    if a < b {
        lemma_collect_ctx_skip(s, a + 1, b);
    }
}

proof fn lemma_collect_ctx_none(s: Seq<char>, a: int)
    requires
        0 <= a,
        forall|i: int| a <= i ==> !ctx_at(s, i),
    ensures
        collect_ctx(s, a) == Seq::<Seq<char>>::empty(),
    decreases s.len() - a,
{
    if a < s.len() {
        lemma_collect_ctx_none(s, a + 1);
    }
}

proof fn lemma_token_end_eq(s: Seq<char>, a: int, b: int)
    requires
        0 <= a <= b <= s.len(),
        forall|k: int| a <= k < b ==> !is_ws(#[trigger] s[k]),
        b < s.len() ==> is_ws(s[b]),
    ensures
        token_end(s, a) == b,
    decreases b - a,
{
    if a < b {
        lemma_token_end_eq(s, a + 1, b);
    }
}

/// The character a serialized, fully populated task carries at position
/// `i`, written out segment by segment.
pub open spec fn rt_char(
    t: TaskView,
    c: char,
    comp: Date,
    cre: Date,
    p: Seq<char>,
    due: Date,
    i: int,
) -> char {
    let f0 = 30 + p.len() as int;
    let g0 = f0 + ctx_seg(t.context).len() as int;
    let h0 = g0 + 15;
    if i == 0 {
        'x'
    } else if i == 1 {
        ' '
    } else if i == 2 {
        '('
    } else if i == 3 {
        c
    } else if i == 4 {
        ')'
    } else if i == 5 {
        ' '
    } else if i < 16 {
        spec_date_seq(comp)[i - 6]
    } else if i == 16 {
        ' '
    } else if i < 27 {
        spec_date_seq(cre)[i - 17]
    } else if i == 27 {
        ' '
    } else if i == 28 {
        '+'
    } else if i < 29 + p.len() {
        p[i - 29]
    } else if i == 29 + p.len() {
        ' '
    } else if i < g0 {
        ctx_seg(t.context)[i - f0]
    } else if i == g0 {
        'd'
    } else if i == g0 + 1 {
        'u'
    } else if i == g0 + 2 {
        'e'
    } else if i == g0 + 3 {
        ':'
    } else if i < g0 + 14 {
        spec_date_seq(due)[i - g0 - 4]
    } else if i == g0 + 14 {
        ' '
    } else if i == h0 {
        '"'
    } else if i < h0 + 1 + t.name.len() {
        t.name[i - h0 - 1]
    } else {
        '"'
    }
}

/// The serialized line of a fully populated task, its `due:` and name
/// offsets, and its per-position character map.
#[verifier::rlimit(100)]
#[verifier::spinoff_prover]
proof fn segments(t: TaskView, c: char, comp: Date, cre: Date, p: Seq<char>, due: Date) -> (r: (
    Seq<char>,
    int,
    int,
))
    requires
        rt_wf(t, c, comp, cre, p, due),
    ensures
        r.0 == spec_serialize(t),
        r.1 == 30 + p.len() + ctx_seg(t.context).len(),
        r.2 == r.1 + 15,
        r.0.len() == r.2 + 2 + t.name.len(),
        forall|i: int|
            0 <= i < r.0.len() ==> #[trigger] r.0[i] == rt_char(t, c, comp, cre, p, due, i),
{
    let s = spec_serialize(t);
    let aseg = done_seg(t.done);
    let bseg = pri_seg(t.priority);
    let cdseg = dates_seg(t.done, t.complete, t.create);
    let eseg = proj_seg(t.project);
    let fseg = ctx_seg(t.context);
    let gseg = due_seg(t.due);
    let hseg = name_seg(t.name);
    lemma_date_seq_roundtrip(comp);
    lemma_date_seq_roundtrip(cre);
    lemma_date_seq_roundtrip(due);
    assert(aseg.len() == 2);
    assert(bseg.len() == 4);
    assert(cdseg == opt_date_seg(t.complete) + opt_date_seg(t.create));
    assert(cdseg.len() == 22);
    assert(eseg.len() == 2 + p.len());
    assert(gseg.len() == 15);
    assert(hseg.len() == 2 + t.name.len());
    let f0 = 30 + p.len() as int;
    let g0 = f0 + fseg.len() as int;
    let h0 = g0 + 15;
    assert(s == aseg + bseg + cdseg + eseg + fseg + gseg + hseg);
    assert(s.len() == h0 + 2 + t.name.len());
    assert forall|i: int| 0 <= i < s.len() implies #[trigger] s[i] == rt_char(
        t,
        c,
        comp,
        cre,
        p,
        due,
        i,
    ) by {
        let head = aseg + bseg + cdseg + eseg;
        assert(s == head + fseg + gseg + hseg);
        if i < 6 {
            assert(s[i] == (aseg + bseg)[i]);
        } else if i < 17 {
            assert(s[i] == cdseg[i - 6]);
            assert(cdseg[i - 6] == (spec_date_seq(comp) + seq![' '])[i - 6]);
        } else if i < 28 {
            assert(s[i] == cdseg[i - 6]);
            assert(cdseg[i - 6] == (spec_date_seq(cre) + seq![' '])[i - 17]);
        } else if i < f0 {
            assert(s[i] == eseg[i - 28]);
        } else if i < g0 {
            assert(s[i] == fseg[i - f0]);
        } else if i < h0 {
            assert(s[i] == gseg[i - g0]);
        } else {
            assert(s[i] == hseg[i - h0]);
        }
    }
    (s, g0, h0)
}

/// The characters of a serialized context region: it opens with `@`, a
/// whitespace character is only ever followed by the `@` of the next block,
/// and it closes with a separator.
#[verifier::rlimit(100)]
#[verifier::spinoff_prover]
proof fn lemma_ctx_seg_chars(cs: Seq<Seq<char>>)
    requires
        ctxs_wf(cs),
    ensures
        ctx_seg(cs).len() > 0 ==> ctx_seg(cs)[0] == '@',
        ctx_seg(cs).len() > 0 ==> is_ws(ctx_seg(cs)[ctx_seg(cs).len() - 1]),
        forall|k: int|
            1 <= k < ctx_seg(cs).len() ==> (is_ws(#[trigger] ctx_seg(cs)[k - 1]) ==> ctx_seg(
                cs,
            )[k] == '@'),
    decreases cs.len(),
{
    if cs.len() > 0 {
        assert(tok_wf(cs[0]));
        assert(ctxs_wf(cs.drop_first())) by {
            assert forall|j: int| 0 <= j < cs.drop_first().len() implies tok_wf(
                #[trigger] cs.drop_first()[j],
            ) by {
                assert(cs.drop_first()[j] == cs[j + 1]);
            }
        }
        lemma_ctx_seg_chars(cs.drop_first());
        let c0 = cs[0];
        let tail = ctx_seg(cs.drop_first());
        let f = ctx_seg(cs);
        let bl = 2 + c0.len() as int;
        assert(f == seq!['@'] + c0 + seq![' '] + tail);
        assert(f.len() == bl + tail.len());
        assert(f[0] == '@');
        assert forall|k: int| 1 <= k < bl - 1 implies f[k] == c0[k - 1] by {}
        assert(f[bl - 1] == ' ');
        assert forall|k: int| bl <= k < f.len() implies f[k] == tail[k - bl] by {}
        assert forall|k: int|
            1 <= k < f.len() implies (is_ws(#[trigger] f[k - 1]) ==> f[k] == '@') by {
            if is_ws(f[k - 1]) {
                if k < bl {
                    assert(f[0] == '@');
                    assert(k - 1 >= 1);
                    assert(f[k - 1] == c0[k - 2]);
                    assert(!is_ws(c0[k - 2]));
                    assert(false);
                } else if k == bl {
                    assert(tail.len() > 0);
                    assert(f[k] == tail[0]);
                    assert(tail[0] == '@');
                } else {
                    assert(f[k - 1] == tail[k - 1 - bl]);
                    assert(is_ws(tail[k - bl - 1]));
                    assert(f[k] == tail[k - bl]);
                    assert(tail[k - bl] == '@');
                }
            }
        }
        if tail.len() > 0 {
            assert(f[f.len() - 1] == tail[tail.len() - 1]);
        } else {
            assert(f[f.len() - 1] == ' ');
        }
    }
}

/// The completion marker and priority of a serialized record read back as
/// written.
#[verifier::rlimit(100)]
#[verifier::spinoff_prover]
proof fn lemma_rt_head(t: TaskView, c: char, comp: Date, cre: Date, p: Seq<char>, due: Date)
    requires
        rt_wf(t, c, comp, cre, p, due),
    ensures
        spec_done(spec_serialize(t)) == true,
        spec_priority(spec_serialize(t)) == Some(c),
{
    let (s, g0, h0) = segments(t, c, comp, cre, p, due);
    assert(spec_done(s));
    assert forall|i: int| 0 <= i < 2 implies !pri_at(s, i) by {}
    lemma_find_pri_skip(s, 0, 2);
    assert(pri_at(s, 2));
    assert(find_pri(s, 2) == Some(c));
}

/// The quoted name of a serialized record reads back exactly, even when it
/// itself holds quotes: the recognizer opens at the first boundary-preceded
/// quote and closes at the line's last quote.
#[verifier::rlimit(100)]
#[verifier::spinoff_prover]
proof fn lemma_rt_name(t: TaskView, c: char, comp: Date, cre: Date, p: Seq<char>, due: Date)
    requires
        rt_wf(t, c, comp, cre, p, due),
    ensures
        spec_name(spec_serialize(t)) == t.name,
{
    let (s, g0, h0) = segments(t, c, comp, cre, p, due);
    let f0 = 30 + p.len() as int;
    let fseg = ctx_seg(t.context);
    lemma_date_seq_roundtrip(comp);
    lemma_date_seq_roundtrip(cre);
    lemma_date_seq_roundtrip(due);
    lemma_ctx_seg_chars(t.context);
    assert forall|i: int| 0 <= i < h0 implies !quote_at(s, i) by {
        if s[i] == '"' {
            if 6 <= i < 16 {
                assert(is_digit(spec_date_seq(comp)[i - 6]) || spec_date_seq(comp)[i - 6] == '-');
            } else if 17 <= i < 27 {
                assert(is_digit(spec_date_seq(cre)[i - 17]) || spec_date_seq(cre)[i - 17] == '-');
            } else if 29 <= i < 29 + p.len() {
                if i == 29 {
                    assert(s[28] == '+');
                } else {
                    assert(s[i - 1] == p[i - 30]);
                    assert(!is_ws(p[i - 30]));
                }
            } else if f0 <= i < g0 {
                assert(s[i] == fseg[i - f0]);
                if i == f0 {
                    assert(fseg[0] == '@');
                } else {
                    assert(s[i - 1] == fseg[i - f0 - 1]);
                    if is_ws(fseg[i - f0 - 1]) {
                        assert(fseg[i - f0] == '@');
                    }
                }
            } else if g0 + 4 <= i < g0 + 14 {
                assert(is_digit(spec_date_seq(due)[i - g0 - 4]) || spec_date_seq(due)[i - g0 - 4]
                    == '-');
            }
        }
    }
    lemma_find_quote_skip(s, 0, h0);
    assert(s[h0] == '"');
    assert(is_ws(s[h0 - 1]));
    assert(quote_at(s, h0));
    assert(find_quote(s, h0) == Some(h0));
    assert(s[s.len() - 1] == '"');
    assert(last_quote(s, s.len() as int) == Some(s.len() - 1));
    assert(spec_name(s) == s.subrange(h0 + 1, s.len() - 1));
    assert forall|k: int| 0 <= k < t.name.len() implies s.subrange(h0 + 1, s.len() - 1)[k]
        == t.name[k] by {
        assert(s[h0 + 1 + k] == t.name[k]);
    }
    assert(s.subrange(h0 + 1, s.len() - 1) =~= t.name);
}

/// The project token of a serialized record reads back as written.
#[verifier::rlimit(100)]
#[verifier::spinoff_prover]
proof fn lemma_rt_project(t: TaskView, c: char, comp: Date, cre: Date, p: Seq<char>, due: Date)
    requires
        rt_wf(t, c, comp, cre, p, due),
    ensures
        spec_project(spec_serialize(t)) == Some(p),
{
    let (s, g0, h0) = segments(t, c, comp, cre, p, due);
    lemma_date_seq_roundtrip(comp);
    lemma_date_seq_roundtrip(cre);
    assert forall|i: int| 0 <= i < 28 implies !proj_at(s, i) by {
        if s[i] == '+' {
            if 6 <= i < 16 {
                assert(is_digit(spec_date_seq(comp)[i - 6]) || spec_date_seq(comp)[i - 6] == '-');
            } else if 17 <= i < 27 {
                assert(is_digit(spec_date_seq(cre)[i - 17]) || spec_date_seq(cre)[i - 17] == '-');
            }
        }
    }
    lemma_find_proj_skip(s, 0, 28);
    assert(s[28] == '+');
    assert(s[27] == ' ');
    assert(s[29] == p[0]);
    assert(!is_ws(p[0]));
    assert(proj_at(s, 28));
    assert(find_proj(s, 0) == Some(28int));
    assert forall|k: int| 29 <= k < 29 + p.len() implies !is_ws(#[trigger] s[k]) by {
        assert(s[k] == p[k - 29]);
    }
    assert(is_ws(s[29 + p.len() as int]));
    lemma_token_end_eq(s, 29, 29 + p.len() as int);
    assert(s.subrange(29, 29 + p.len() as int) =~= p);
}

/// The two date slots of a serialized completed record read back as
/// completion date then creation date.
#[verifier::rlimit(100)]
#[verifier::spinoff_prover]
proof fn lemma_rt_dates(t: TaskView, c: char, comp: Date, cre: Date, p: Seq<char>, due: Date)
    requires
        rt_wf(t, c, comp, cre, p, due),
    ensures
        spec_date_slots(spec_serialize(t)) == (Some(comp), Some(cre)),
{
    let (s, g0, h0) = segments(t, c, comp, cre, p, due);
    lemma_date_seq_roundtrip(comp);
    lemma_date_seq_roundtrip(cre);
    assert forall|i: int| 0 <= i < 6 implies !date_at(s, i) by {
        if i == 3 && is_digit(s[i]) {
            assert(s[i] == c);
            assert(false);
        }
    }
    lemma_find_date_skip(s, 0, 6);
    assert(s.subrange(6, 16) =~= spec_date_seq(comp)) by {
        assert forall|k: int| 0 <= k < 10 implies s.subrange(6, 16)[k] == spec_date_seq(comp)[k] by {
            assert(s[6 + k] == spec_date_seq(comp)[k]);
        }
    }
    assert(date_at(s, 6)) by {
        assert(is_ws(s[5]));
        assert(crate::date::date_pattern_at(spec_date_seq(comp), 0));
        assert(crate::date::date_pattern_at(s, 6));
        assert(date_value_at(s, 6) == date_value_at(spec_date_seq(comp), 0));
    }
    assert(find_date(s, 0) == Some(6int));
    assert(date_value_at(s, 6) == comp);
    assert forall|i: int| 7 <= i < 17 implies !date_at(s, i) by {
        if i < 16 {
            assert(s[i - 1] == spec_date_seq(comp)[i - 7]);
            assert(is_digit(s[i - 1]) || s[i - 1] == '-');
        } else {
            assert(s[16] == ' ');
        }
    }
    lemma_find_date_skip(s, 7, 17);
    assert(s.subrange(17, 27) =~= spec_date_seq(cre)) by {
        assert forall|k: int| 0 <= k < 10 implies s.subrange(17, 27)[k] == spec_date_seq(cre)[k] by {
            assert(s[17 + k] == spec_date_seq(cre)[k]);
        }
    }
    assert(date_at(s, 17)) by {
        assert(is_ws(s[16]));
        assert(crate::date::date_pattern_at(spec_date_seq(cre), 0));
        assert(crate::date::date_pattern_at(s, 17));
        assert(date_value_at(s, 17) == date_value_at(spec_date_seq(cre), 0));
    }
    assert(find_date(s, 7) == Some(17int));
    assert(date_value_at(s, 17) == cre);
}

/// The `due:` date of a serialized record reads back as written.
#[verifier::rlimit(100)]
#[verifier::spinoff_prover]
proof fn lemma_rt_due(t: TaskView, c: char, comp: Date, cre: Date, p: Seq<char>, due: Date)
    requires
        rt_wf(t, c, comp, cre, p, due),
    ensures
        spec_due(spec_serialize(t)) == Some(due),
{
    let (s, g0, h0) = segments(t, c, comp, cre, p, due);
    let f0 = 30 + p.len() as int;
    let fseg = ctx_seg(t.context);
    lemma_date_seq_roundtrip(comp);
    lemma_date_seq_roundtrip(cre);
    lemma_date_seq_roundtrip(due);
    lemma_ctx_seg_chars(t.context);
    assert forall|i: int| 0 <= i < g0 implies !due_at(s, i) by {
        if s[i] == 'd' {
            if 6 <= i < 16 {
                assert(is_digit(spec_date_seq(comp)[i - 6]) || spec_date_seq(comp)[i - 6] == '-');
            } else if 17 <= i < 27 {
                assert(is_digit(spec_date_seq(cre)[i - 17]) || spec_date_seq(cre)[i - 17] == '-');
            } else if 29 <= i < 29 + p.len() {
                if i == 29 {
                    assert(s[28] == '+');
                } else {
                    assert(s[i - 1] == p[i - 30]);
                    assert(!is_ws(p[i - 30]));
                }
            } else if f0 <= i < g0 {
                assert(s[i] == fseg[i - f0]);
                if i == f0 {
                    assert(fseg[0] == '@');
                } else {
                    assert(s[i - 1] == fseg[i - f0 - 1]);
                    if is_ws(fseg[i - f0 - 1]) {
                        assert(fseg[i - f0] == '@');
                    }
                }
            }
        }
    }
    lemma_find_due_skip(s, 0, g0);
    assert(s.subrange(g0 + 4, g0 + 14) =~= spec_date_seq(due)) by {
        assert forall|k: int|
            0 <= k < 10 implies s.subrange(g0 + 4, g0 + 14)[k] == spec_date_seq(due)[k] by {
            assert(s[g0 + 4 + k] == spec_date_seq(due)[k]);
        }
    }
    assert(due_at(s, g0)) by {
        if fseg.len() == 0 {
            assert(s[g0 - 1] == ' ');
        } else {
            assert(s[g0 - 1] == fseg[fseg.len() - 1]);
            assert(is_ws(fseg[fseg.len() - 1]));
        }
        assert(due_marker_at(s, g0));
        assert(crate::date::date_pattern_at(spec_date_seq(due), 0));
        assert(crate::date::date_pattern_at(s, g0 + 4));
        assert(date_value_at(s, g0 + 4) == date_value_at(spec_date_seq(due), 0));
    }
    assert(find_due(s, 0) == Some(g0));
    assert(date_value_at(s, g0 + 4) == due);
}

/// A region that spells the context blocks, followed by a tail with no
/// context token, is collected exactly as the block list.
#[verifier::rlimit(100)]
#[verifier::spinoff_prover]
proof fn lemma_collect_blocks(s: Seq<char>, i: int, g: int, cs: Seq<Seq<char>>)
    requires
        0 <= i <= g <= s.len(),
        ctxs_wf(cs),
        s.subrange(i, g) == ctx_seg(cs),
        boundary(s, i),
        collect_ctx(s, g) == Seq::<Seq<char>>::empty(),
    ensures
        collect_ctx(s, i) == cs,
    decreases cs.len(),
{
    if cs.len() == 0 {
        assert(g - i == 0);
        assert(collect_ctx(s, i) =~= cs);
    } else {
        assert(tok_wf(cs[0]));
        let c0 = cs[0];
        let bl = 2 + c0.len() as int;
        let blk = seq!['@'] + c0 + seq![' '];
        let tail = ctx_seg(cs.drop_first());
        assert(ctx_seg(cs) == blk + tail);
        assert(g - i == bl + tail.len());
        assert forall|k: int| 0 <= k < g - i implies s[i + k] == ctx_seg(cs)[k] by {
            assert(s.subrange(i, g)[k] == s[i + k]);
        }
        assert(s[i] == '@') by {
            assert(s.subrange(i, g)[0] == s[i]);
            assert(ctx_seg(cs)[0] == blk[0]);
        }
        assert forall|k: int| 0 <= k < c0.len() implies s[i + 1 + k] == c0[k] by {
            assert(ctx_seg(cs)[1 + k] == blk[1 + k]);
            assert(blk[1 + k] == c0[k]);
        }
        assert(s[i + bl - 1] == ' ') by {
            assert(ctx_seg(cs)[bl - 1] == blk[bl - 1]);
        }
        assert(ctx_at(s, i)) by {
            assert(s[i + 1] == c0[0]);
            assert(!is_ws(c0[0]));
        }
        assert forall|k: int| i + 1 <= k < i + 1 + c0.len() implies !is_ws(#[trigger] s[k]) by {
            assert(s[k] == c0[k - i - 1]);
        }
        lemma_token_end_eq(s, i + 1, i + 1 + c0.len() as int);
        assert(s.subrange(i + 1, i + 1 + c0.len() as int) =~= c0);
        assert(collect_ctx(s, i) == seq![c0] + collect_ctx(s, i + 1));
        assert forall|k: int| i + 1 <= k < i + bl implies !ctx_at(s, k) by {
            if k < i + 1 + c0.len() {
                assert(s[k - 1] == (if k == i + 1 {
                    '@'
                } else {
                    c0[k - i - 2]
                }));
                assert(!is_ws(s[k - 1]));
            } else {
                assert(s[k] == ' ');
            }
        }
        lemma_collect_ctx_skip(s, i + 1, i + bl);
        assert(ctxs_wf(cs.drop_first())) by {
            assert forall|j: int| 0 <= j < cs.drop_first().len() implies tok_wf(
                #[trigger] cs.drop_first()[j],
            ) by {
                assert(cs.drop_first()[j] == cs[j + 1]);
            }
        }
        assert(s.subrange(i + bl, g) =~= tail) by {
            assert forall|k: int| 0 <= k < tail.len() implies s.subrange(i + bl, g)[k]
                == tail[k] by {
                assert(s[i + bl + k] == ctx_seg(cs)[bl + k]);
                assert(ctx_seg(cs)[bl + k] == tail[k]);
            }
        }
        assert(boundary(s, i + bl));
        lemma_collect_blocks(s, i + bl, g, cs.drop_first());
        assert(collect_ctx(s, i) =~= cs);
    }
}

/// The context tokens of a serialized record read back in order, all of
/// them, and nothing else joins them.
#[verifier::rlimit(100)]
#[verifier::spinoff_prover]
proof fn lemma_rt_contexts(t: TaskView, c: char, comp: Date, cre: Date, p: Seq<char>, due: Date)
    requires
        rt_wf(t, c, comp, cre, p, due),
    ensures
        spec_contexts(spec_serialize(t)) == t.context,
{
    let (s, g0, h0) = segments(t, c, comp, cre, p, due);
    let f0 = 30 + p.len() as int;
    let fseg = ctx_seg(t.context);
    lemma_date_seq_roundtrip(comp);
    lemma_date_seq_roundtrip(cre);
    lemma_date_seq_roundtrip(due);
    assert forall|i: int| 0 <= i < f0 implies !ctx_at(s, i) by {
        if s[i] == '@' {
            if 6 <= i < 16 {
                assert(is_digit(spec_date_seq(comp)[i - 6]) || spec_date_seq(comp)[i - 6] == '-');
            } else if 17 <= i < 27 {
                assert(is_digit(spec_date_seq(cre)[i - 17]) || spec_date_seq(cre)[i - 17] == '-');
            } else if 29 <= i < 29 + p.len() {
                if i == 29 {
                    assert(s[28] == '+');
                } else {
                    assert(s[i - 1] == p[i - 30]);
                    assert(!is_ws(p[i - 30]));
                }
            }
        }
    }
    lemma_collect_ctx_skip(s, 0, f0);
    assert forall|i: int| g0 <= i implies !ctx_at(s, i) by {
        if i + 2 <= s.len() && s[i] == '@' {
            if g0 + 4 <= i < g0 + 14 {
                assert(is_digit(spec_date_seq(due)[i - g0 - 4]) || spec_date_seq(due)[i - g0 - 4]
                    == '-');
            } else if h0 + 1 <= i < h0 + 1 + t.name.len() {
                assert(s[i] == t.name[i - h0 - 1]);
                if i == h0 + 1 {
                    assert(s[h0] == '"');
                } else {
                    assert(s[i - 1] == t.name[i - h0 - 2]);
                    assert(!(is_ws(t.name[i - h0 - 2]) && t.name[i - h0 - 1] == '@'));
                }
            }
        }
    }
    lemma_collect_ctx_none(s, g0);
    assert(s.subrange(f0, g0) =~= fseg) by {
        assert forall|k: int| 0 <= k < fseg.len() implies s.subrange(f0, g0)[k] == fseg[k] by {
            assert(s[f0 + k] == fseg[k]);
        }
    }
    assert(boundary(s, f0)) by {
        assert(s[f0 - 1] == ' ');
    }
    lemma_collect_blocks(s, f0, g0, t.context);
}

/// Round trip: parsing the canonical record line of a fully populated,
/// well-formed task reproduces the task field for field. `c`, `comp`,
/// `cre`, `p` and `due` name the payloads of the populated fields; the
/// well-formedness asks only that the priority is an uppercase letter, the
/// dates lie in the grammar's range, the project and context tokens are
/// non-empty and free of whitespace, and the name holds no
/// whitespace-preceded `@` token.
pub proof fn lemma_round_trip(t: TaskView, c: char, comp: Date, cre: Date, p: Seq<char>, due: Date)
    requires
        rt_wf(t, c, comp, cre, p, due),
    ensures
        spec_from_string(spec_serialize(t)) == t,
{
    lemma_rt_head(t, c, comp, cre, p, due);
    lemma_rt_name(t, c, comp, cre, p, due);
    lemma_rt_project(t, c, comp, cre, p, due);
    lemma_rt_dates(t, c, comp, cre, p, due);
    lemma_rt_due(t, c, comp, cre, p, due);
    lemma_rt_contexts(t, c, comp, cre, p, due);
    assert(spec_from_string(spec_serialize(t)) =~~= t);
}

} // verus!
