use vstd::prelude::*;
use vstd::std_specs::cmp::PartialEqSpec;

use crate::cell::{Cell, Flags, Indexed, MAX_ZEROWIDTH_CHARS};
use crate::color::{Config, List, Rgb};
use crate::text_run::{copy_chars, resolve, ContentView, RunStart, TextRun, TextRunContent};

verus! {

/// What decides whether two cells share a run: line, resolved foreground and
/// background, attributes and selection state.
pub type RunKey = (usize, Rgb, Rgb, Flags, bool);

pub open spec fn cell_key(config: Config, colors: List, cell: Indexed<Cell>, selected: bool) -> RunKey {
    let r = resolve(config, colors, RunStart::of_spec(cell, selected));
    (cell.line, r.0, r.1, cell.inner.flags, selected)
}

/// The key of every cell of a line.
pub open spec fn run_keys(config: Config, colors: List, cells: Seq<Indexed<Cell>>, sel: Seq<bool>) -> Seq<
    RunKey,
> {
    Seq::new(cells.len(), |i: int| cell_key(config, colors, cells[i], sel[i]))
}

/// Cell `i` opens a run: it is the first, or its key differs from its left neighbour's.
pub open spec fn opens_run(keys: Seq<RunKey>, i: int) -> bool {
    i == 0 || keys[i] != keys[i - 1]
}

/// Number of maximal blocks of equal keys among the first `n` keys.
pub open spec fn num_runs(keys: Seq<RunKey>, n: int) -> nat
    decreases n,
{
    if n <= 0 {
        0
    } else {
        num_runs(keys, n - 1) + if opens_run(keys, n - 1) {
            1nat
        } else {
            0nat
        }
    }
}

/// The cells among the first `i` that open a run, left to right.
pub open spec fn starts_upto(keys: Seq<RunKey>, i: int) -> Seq<int>
    decreases i,
{
    if i <= 0 {
        Seq::empty()
    } else if opens_run(keys, i - 1) {
        starts_upto(keys, i - 1).push(i - 1)
    } else {
        starts_upto(keys, i - 1)
    }
}

/// Where each run begins, followed by the length of the line.
pub open spec fn run_starts(keys: Seq<RunKey>) -> Seq<int> {
    starts_upto(keys, keys.len() as int).push(keys.len() as int)
}

/// `out` is the cut of the line `cells` into runs: one run per maximal block
/// of equal keys, each made of its block's cells.
pub open spec fn builds_runs(
    config: Config,
    colors: List,
    cells: Seq<Indexed<Cell>>,
    sel: Seq<bool>,
    out: Seq<TextRun>,
) -> bool {
    let keys = run_keys(config, colors, cells, sel);
    let starts = run_starts(keys);
    &&& out.len() == num_runs(keys, cells.len() as int)
    &&& is_partition(keys, starts)
    &&& starts.len() == out.len() + 1
    &&& forall|j: int|
        0 <= j < out.len() ==> is_run_of(
            #[trigger] out[j],
            config,
            colors,
            cells,
            sel,
            starts[j],
            starts[j + 1],
        )
}

/// The cells lie on one line, in consecutive columns.
pub open spec fn contiguous(cells: Seq<Indexed<Cell>>) -> bool {
    forall|i: int|
        0 < i < cells.len() ==> (#[trigger] cells[i]).line == cells[i - 1].line && cells[i].column
            == cells[i - 1].column + 1
}

pub open spec fn base_chars(cells: Seq<Indexed<Cell>>) -> Seq<char> {
    cells.map_values(|c: Indexed<Cell>| c.inner.c)
}

pub open spec fn zerowidth_slots(cells: Seq<Indexed<Cell>>) -> Seq<Seq<char>> {
    cells.map_values(|c: Indexed<Cell>| c.inner.extra@)
}

/// `r` is the run made of the cells `lo .. hi`, colored as the first of them.
pub open spec fn is_run_of(
    r: TextRun,
    config: Config,
    colors: List,
    cells: Seq<Indexed<Cell>>,
    sel: Seq<bool>,
    lo: int,
    hi: int,
) -> bool {
    let block = cells.subrange(lo, hi);
    &&& r.line == cells[lo].line
    &&& r.span == (cells[lo].column, cells[hi - 1].column)
    &&& r.content@ == ContentView::CharRun(base_chars(block), zerowidth_slots(block))
    &&& (r.fg, r.bg, r.bg_alpha) == resolve(config, colors, RunStart::of_spec(cells[lo], sel[lo]))
    &&& r.flags == cells[lo].inner.flags
    &&& r.data is None
}

/// `starts` cuts `keys` into maximal blocks of equal keys: it begins at 0, ends
/// at the length, increases, and a key changes exactly where a block begins.
pub open spec fn is_partition(keys: Seq<RunKey>, starts: Seq<int>) -> bool {
    &&& starts.len() >= 1
    &&& starts[0] == 0
    &&& starts.last() == keys.len()
    &&& forall|j: int| 0 <= j < starts.len() - 1 ==> #[trigger] starts[j] < starts[j + 1]
    &&& forall|j: int, i: int|
        0 <= j < starts.len() - 1 && starts[j] <= i < starts[j + 1] ==> #[trigger] keys[i]
            == keys[#[trigger] starts[j]]
    &&& forall|j: int| 0 < j < starts.len() - 1 ==> keys[#[trigger] starts[j]] != keys[starts[j] - 1]
    &&& forall|i: int| 0 <= i < keys.len() && #[trigger] opens_run(keys, i) ==> exists|j: int|
        0 <= j < starts.len() - 1 && starts[j] == i
}

/// Groups the cells of one line, left to right, into maximal runs of cells
/// whose keys agree. Each run holds its cells' characters and zero-width
/// characters, and is colored as its first cell.
pub fn build_text_runs(
    config: &Config,
    colors: &List,
    cells: &Vec<Indexed<Cell>>,
    selected: &Vec<bool>,
) -> (out: Vec<TextRun>)
    requires
        colors.wf(),
        selected@.len() == cells@.len(),
        contiguous(cells@),
        forall|i: int| 0 <= i < cells@.len() ==> (#[trigger] cells@[i]).inner.wf(),
    ensures
        builds_runs(*config, *colors, cells@, selected@, out@),
        ({
            let starts = run_starts(run_keys(*config, *colors, cells@, selected@));
            &&& forall|j: int, k: int|
                0 <= j < out@.len() && starts[j] <= k < starts[j + 1] ==> cells@[k].line == (
                #[trigger] out@[j]).line && out@[j].span.0 <= (#[trigger] cells@[k]).column
                    <= out@[j].span.1
            &&& forall|j: int|
                0 <= j < out@.len() ==> (#[trigger] out@[j]).span.1 - out@[j].span.0 == starts[j
                    + 1] - starts[j] - 1
        }),
        forall|j: int| 0 <= j < out@.len() ==> (#[trigger] out@[j]).wf(),
        forall|k: int|
            0 < k < cells@.len() && (#[trigger] cells@[k]).inner.flags != cells@[k - 1].inner.flags
                ==> exists|j: int| 0 <= j < out@.len() && (#[trigger] out@[j]).span.0 == cells@[k].column,
        forall|j: int, s: int|
            0 <= j < out@.len() ==> (#[trigger] out@[j]).content@ is CharRun && (0 <= s
                < out@[j].content@->CharRun_1.len() ==> (#[trigger] out@[j].content@->CharRun_1[s]).len()
                <= MAX_ZEROWIDTH_CHARS),
{
    let ghost keys = run_keys(*config, *colors, cells@, selected@);
    let mut out: Vec<TextRun> = Vec::new();
    let n = cells.len();
    if n == 0 {
        assert(run_starts(keys) =~= seq![0int]);
        assert(is_partition(keys, seq![0int]));
        return out;
    }
    let mut open = RunStart::of(&cells[0], selected[0]);
    let (mut fg, mut bg, mut bg_alpha) = TextRun::color_to_rgb(config, colors, &open);
    let mut chars: Vec<char> = Vec::new();
    let mut slots: Vec<Vec<char>> = Vec::new();
    chars.push(cells[0].inner.c);
    slots.push(copy_chars(&cells[0].inner.extra));
    let mut start: usize = 0;
    let ghost mut starts: Seq<int> = seq![0int];
    proof {
        lemma_block_single(cells@, 0);
        assert(slots@.map_values(|v: Vec<char>| v@) =~= seq![cells@[0].inner.extra@]);
        assert(num_runs(keys, 0) == 0);
        assert(opens_run(keys, 0));
        assert(num_runs(keys, 1) == 1);
        assert(starts[0] == 0);
        assert(starts_upto(keys, 0) == Seq::<int>::empty());
        assert(starts_upto(keys, 1) =~= starts);
    }
    let mut i: usize = 1;
    while i < n
        invariant
            n == cells@.len(),
            selected@.len() == n,
            colors.wf(),
            contiguous(cells@),
            keys == run_keys(*config, *colors, cells@, selected@),
            1 <= i <= n,
            start < i,
            open == RunStart::of_spec(cells@[start as int], selected@[start as int]),
            (fg, bg, bg_alpha) == resolve(*config, *colors, open),
            chars@ == base_chars(cells@.subrange(start as int, i as int)),
            slots@.map_values(|v: Vec<char>| v@) == zerowidth_slots(
                cells@.subrange(start as int, i as int),
            ),
            starts.len() == out@.len() + 1,
            starts[0] == 0,
            starts.last() == start,
            forall|j: int| 0 <= j < starts.len() - 1 ==> #[trigger] starts[j] < starts[j + 1],
            forall|j: int, k: int|
                0 <= j < starts.len() - 1 && starts[j] <= k < starts[j + 1] ==> #[trigger] keys[k]
                    == keys[#[trigger] starts[j]],
            forall|k: int| start <= k < i ==> #[trigger] keys[k] == keys[start as int],
            forall|j: int|
                0 < j < starts.len() ==> keys[#[trigger] starts[j]] != keys[starts[j] - 1],
            forall|k: int|
                0 <= k < i && #[trigger] opens_run(keys, k) ==> exists|j: int|
                    0 <= j < starts.len() && starts[j] == k,
            forall|j: int|
                0 <= j < out@.len() ==> is_run_of(
                    #[trigger] out@[j],
                    *config,
                    *colors,
                    cells@,
                    selected@,
                    starts[j],
                    starts[j + 1],
                ),
            forall|j: int| 0 <= j < out@.len() ==> (#[trigger] out@[j]).wf(),
            out@.len() + 1 == num_runs(keys, i as int),
            starts == starts_upto(keys, i as int),
        decreases n - i,
    {
        assert(keys[i as int] == cell_key(*config, *colors, cells@[i as int], selected@[i as int]));
        assert(keys[start as int] == cell_key(*config, *colors, cells@[start as int], selected@[start as int]));
        assert(keys[i - 1] == keys[start as int]);
        assert(starts_upto(keys, i + 1) == if opens_run(keys, i as int) {
            starts_upto(keys, i as int).push(i as int)
        } else {
            starts_upto(keys, i as int)
        });
        assert(num_runs(keys, i + 1) == num_runs(keys, i as int) + if opens_run(keys, i as int) {
            1nat
        } else {
            0nat
        });
        let ghost old_slots = slots@.map_values(|v: Vec<char>| v@);
        if open.belongs_to_text_run(config, colors, &cells[i], selected[i]) {
            chars.push(cells[i].inner.c);
            slots.push(copy_chars(&cells[i].inner.extra));
            proof {
                lemma_block_extend(cells@, start as int, i as int);
                assert(slots@.map_values(|v: Vec<char>| v@) =~= old_slots.push(
                    cells@[i as int].inner.extra@,
                ));
            }
        } else {
            let cand = RunStart::of(&cells[i], selected[i]);
            let (cand_fg, cand_bg, cand_alpha) = TextRun::color_to_rgb(config, colors, &cand);
            let ghost old_out = out@;
            let ghost old_starts = starts;
            assert(contiguous(cells@));
            assert(cells@[i - 1].column == cells@[start as int].column + (i - 1 - start)) by {
                lemma_columns(cells@, start as int, i - 1);
            }
            let run = TextRun {
                line: open.line,
                span: (open.column, cells[i - 1].column),
                content: TextRunContent::CharRun(chars, slots),
                fg,
                bg,
                bg_alpha,
                flags: open.flags,
                data: None,
            };
            out.push(run);
            open = cand;
            fg = cand_fg;
            bg = cand_bg;
            bg_alpha = cand_alpha;
            chars = Vec::new();
            slots = Vec::new();
            chars.push(cells[i].inner.c);
            slots.push(copy_chars(&cells[i].inner.extra));
            start = i;
            proof {
                starts = starts.push(i as int);
                lemma_block_single(cells@, i as int);
                assert(slots@.map_values(|v: Vec<char>| v@) =~= seq![cells@[i as int].inner.extra@]);
                assert forall|j: int| 0 <= j < out@.len() implies is_run_of(
                    #[trigger] out@[j],
                    *config,
                    *colors,
                    cells@,
                    selected@,
                    starts[j],
                    starts[j + 1],
                ) by {
                    if j < old_out.len() {
                        assert(out@[j] == old_out[j]);
                        assert(starts[j] == old_starts[j] && starts[j + 1] == old_starts[j + 1]);
                    }
                }
                assert forall|k: int|
                    0 <= k < i + 1 && #[trigger] opens_run(keys, k) implies exists|j: int|
                    0 <= j < starts.len() && starts[j] == k by {
                    if k < i {
                        let j = choose|j: int| 0 <= j < old_starts.len() && old_starts[j] == k;
                        assert(starts[j] == k);
                    } else {
                        assert(starts[starts.len() - 1] == k);
                    }
                }
            }
        }
        i = i + 1;
    }
    proof {
        assert(cells@[n - 1].column == cells@[start as int].column + (n - 1 - start)) by {
            lemma_columns(cells@, start as int, n - 1);
        }
    }
    let ghost old_out = out@;
    let ghost old_starts = starts;
    let run = TextRun {
        line: open.line,
        span: (open.column, cells[n - 1].column),
        content: TextRunContent::CharRun(chars, slots),
        fg,
        bg,
        bg_alpha,
        flags: open.flags,
        data: None,
    };
    out.push(run);
    proof {
        starts = starts.push(n as int);
        assert forall|j: int| 0 <= j < out@.len() implies is_run_of(
            #[trigger] out@[j],
            *config,
            *colors,
            cells@,
            selected@,
            starts[j],
            starts[j + 1],
        ) by {
            if j < old_out.len() {
                assert(out@[j] == old_out[j]);
                assert(starts[j] == old_starts[j] && starts[j + 1] == old_starts[j + 1]);
            }
        }
        assert forall|k: int| 0 <= k < keys.len() && #[trigger] opens_run(keys, k) implies exists|
            j: int,
        | 0 <= j < starts.len() - 1 && starts[j] == k by {
            let j = choose|j: int| 0 <= j < old_starts.len() && old_starts[j] == k;
            assert(starts[j] == k);
        }
        assert(starts == run_starts(keys));
        assert(is_partition(keys, starts));
        lemma_run_facts(*config, *colors, cells@, selected@, starts, out@);
    }
    out
}

/// Two cells show the same: position, base character, color references,
/// attributes and zero-width characters agree.
pub open spec fn same_shown(a: Indexed<Cell>, b: Indexed<Cell>) -> bool {
    &&& a.line == b.line
    &&& a.column == b.column
    &&& a.inner.c == b.inner.c
    &&& a.inner.fg == b.inner.fg
    &&& a.inner.bg == b.inner.bg
    &&& a.inner.flags == b.inner.flags
    &&& a.inner.extra@ == b.inner.extra@
}

/// The runs of a line follow from what its cells show: lines whose cells show
/// the same give runs that agree in every field but the cached data, and that
/// compare equal. A full cell stays as it was under `Cell::push_extra`, so
/// zero-width characters pushed past the maximum leave no trace in the runs,
/// neither in their content nor in their width.
pub proof fn lemma_runs_follow_cells(
    config: Config,
    colors: List,
    cells1: Seq<Indexed<Cell>>,
    cells2: Seq<Indexed<Cell>>,
    sel: Seq<bool>,
    out1: Seq<TextRun>,
    out2: Seq<TextRun>,
)
    requires
        builds_runs(config, colors, cells1, sel, out1),
        builds_runs(config, colors, cells2, sel, out2),
        cells1.len() == cells2.len(),
        forall|i: int| 0 <= i < cells1.len() ==> same_shown(#[trigger] cells1[i], cells2[i]),
    ensures
        out1.len() == out2.len(),
        forall|j: int|
            0 <= j < out1.len() ==> {
                &&& (#[trigger] out1[j]).line == out2[j].line
                &&& out1[j].span == out2[j].span
                &&& out1[j].content@ == out2[j].content@
                &&& out1[j].fg == out2[j].fg
                &&& out1[j].bg == out2[j].bg
                &&& out1[j].bg_alpha == out2[j].bg_alpha
                &&& out1[j].flags == out2[j].flags
                &&& out1[j].eq_spec(&out2[j])
            },
{
    let keys = run_keys(config, colors, cells1, sel);
    lemma_same_keys(config, colors, cells1, cells2, sel);
    let starts = run_starts(keys);
    assert forall|j: int| 0 <= j < out1.len() implies {
        &&& (#[trigger] out1[j]).line == out2[j].line
        &&& out1[j].span == out2[j].span
        &&& out1[j].content@ == out2[j].content@
        &&& out1[j].fg == out2[j].fg
        &&& out1[j].bg == out2[j].bg
        &&& out1[j].bg_alpha == out2[j].bg_alpha
        &&& out1[j].flags == out2[j].flags
        &&& out1[j].eq_spec(&out2[j])
    } by {
        lemma_starts_bounded(keys, starts, j);
        lemma_run_follows_cells(
            config,
            colors,
            cells1,
            cells2,
            sel,
            out1[j],
            out2[j],
            starts[j],
            starts[j + 1],
        );
    }
}

proof fn lemma_same_keys(
    config: Config,
    colors: List,
    cells1: Seq<Indexed<Cell>>,
    cells2: Seq<Indexed<Cell>>,
    sel: Seq<bool>,
)
    requires
        cells1.len() == cells2.len(),
        forall|i: int| 0 <= i < cells1.len() ==> same_shown(#[trigger] cells1[i], cells2[i]),
    ensures
        run_keys(config, colors, cells1, sel) == run_keys(config, colors, cells2, sel),
{
    let keys = run_keys(config, colors, cells1, sel);
    assert forall|i: int| 0 <= i < cells1.len() implies #[trigger] keys[i] == run_keys(
        config,
        colors,
        cells2,
        sel,
    )[i] by {
        assert(same_shown(cells1[i], cells2[i]));
        assert(RunStart::of_spec(cells1[i], sel[i]) == RunStart::of_spec(cells2[i], sel[i]));
    }
    assert(keys =~= run_keys(config, colors, cells2, sel));
}

proof fn lemma_run_follows_cells(
    config: Config,
    colors: List,
    cells1: Seq<Indexed<Cell>>,
    cells2: Seq<Indexed<Cell>>,
    sel: Seq<bool>,
    r1: TextRun,
    r2: TextRun,
    lo: int,
    hi: int,
)
    requires
        0 <= lo < hi <= cells1.len(),
        cells1.len() == cells2.len(),
        forall|i: int| 0 <= i < cells1.len() ==> same_shown(#[trigger] cells1[i], cells2[i]),
        is_run_of(r1, config, colors, cells1, sel, lo, hi),
        is_run_of(r2, config, colors, cells2, sel, lo, hi),
    ensures
        r1.line == r2.line,
        r1.span == r2.span,
        r1.content@ == r2.content@,
        r1.fg == r2.fg,
        r1.bg == r2.bg,
        r1.bg_alpha == r2.bg_alpha,
        r1.flags == r2.flags,
        r1.eq_spec(&r2),
{
    assert(same_shown(cells1[lo], cells2[lo]));
    assert(same_shown(cells1[hi - 1], cells2[hi - 1]));
    assert(RunStart::of_spec(cells1[lo], sel[lo]) == RunStart::of_spec(cells2[lo], sel[lo]));
    let b1 = cells1.subrange(lo, hi);
    let b2 = cells2.subrange(lo, hi);
    assert forall|k: int| 0 <= k < hi - lo implies #[trigger] b1[k].inner.c == b2[k].inner.c
        && b1[k].inner.extra@ == b2[k].inner.extra@ by {
        assert(same_shown(cells1[lo + k], cells2[lo + k]));
    }
    assert(base_chars(b1) =~= base_chars(b2));
    assert(zerowidth_slots(b1) =~= zerowidth_slots(b2));
}

/// What a cut of a contiguous line into runs gives: each run lies on the line
/// of its cells and spans their columns, a change of attributes opens a run, and
/// no run holds more zero-width characters per cell than a cell does.
proof fn lemma_run_facts(
    config: Config,
    colors: List,
    cells: Seq<Indexed<Cell>>,
    sel: Seq<bool>,
    starts: Seq<int>,
    out: Seq<TextRun>,
)
    requires
        sel.len() == cells.len(),
        contiguous(cells),
        forall|i: int| 0 <= i < cells.len() ==> (#[trigger] cells[i]).inner.wf(),
        is_partition(run_keys(config, colors, cells, sel), starts),
        starts.len() == out.len() + 1,
        forall|j: int|
            0 <= j < out.len() ==> is_run_of(
                #[trigger] out[j],
                config,
                colors,
                cells,
                sel,
                starts[j],
                starts[j + 1],
            ),
    ensures
        forall|j: int, k: int|
            0 <= j < out.len() && starts[j] <= k < starts[j + 1] ==> cells[k].line == (
            #[trigger] out[j]).line && out[j].span.0 <= (#[trigger] cells[k]).column
                <= out[j].span.1,
        forall|j: int|
            0 <= j < out.len() ==> (#[trigger] out[j]).span.1 - out[j].span.0 == starts[j + 1]
                - starts[j] - 1,
        forall|k: int|
            0 < k < cells.len() && (#[trigger] cells[k]).inner.flags != cells[k - 1].inner.flags
                ==> exists|j: int| 0 <= j < out.len() && (#[trigger] out[j]).span.0 == cells[k].column,
        forall|j: int, s: int|
            0 <= j < out.len() ==> (#[trigger] out[j]).content@ is CharRun && (0 <= s
                < out[j].content@->CharRun_1.len() ==> (#[trigger] out[j].content@->CharRun_1[s]).len()
                <= MAX_ZEROWIDTH_CHARS),
{
    let keys = run_keys(config, colors, cells, sel);
    assert forall|j: int| 0 <= j < out.len() implies (#[trigger] out[j]).span.1 - out[j].span.0
        == starts[j + 1] - starts[j] - 1 by {
        assert(is_run_of(out[j], config, colors, cells, sel, starts[j], starts[j + 1]));
        assert(starts[j] < starts[j + 1]);
        lemma_starts_bounded(keys, starts, j);
        lemma_columns(cells, starts[j], starts[j + 1] - 1);
    }
    assert forall|j: int, k: int|
        0 <= j < out.len() && starts[j] <= k < starts[j + 1] implies cells[k].line == (
        #[trigger] out[j]).line && out[j].span.0 <= (#[trigger] cells[k]).column
            <= out[j].span.1 by {
        assert(is_run_of(out[j], config, colors, cells, sel, starts[j], starts[j + 1]));
        lemma_starts_bounded(keys, starts, j);
        assert(keys[k] == keys[starts[j]]);
        lemma_columns(cells, starts[j], k);
        lemma_columns(cells, k, starts[j + 1] - 1);
    }
    assert forall|k: int|
        0 < k < cells.len() && (#[trigger] cells[k]).inner.flags != cells[k - 1].inner.flags
            implies exists|j: int| 0 <= j < out.len() && (#[trigger] out[j]).span.0 == cells[k].column by {
        assert(keys[k] != keys[k - 1]);
        assert(opens_run(keys, k));
        let j = choose|j: int| 0 <= j < starts.len() - 1 && starts[j] == k;
        assert(is_run_of(out[j], config, colors, cells, sel, starts[j], starts[j + 1]));
        assert(out[j].span.0 == cells[k].column);
    }
    assert forall|j: int, s: int|
        0 <= j < out.len() implies (#[trigger] out[j]).content@ is CharRun && (0 <= s
            < out[j].content@->CharRun_1.len() ==> (#[trigger] out[j].content@->CharRun_1[s]).len()
            <= MAX_ZEROWIDTH_CHARS) by {
        assert(is_run_of(out[j], config, colors, cells, sel, starts[j], starts[j + 1]));
        lemma_starts_bounded(keys, starts, j);
        if 0 <= s < out[j].content@->CharRun_1.len() {
            assert(cells[starts[j] + s].inner.wf());
        }
    }
}

/// Each block of a cut lies within the keys.
proof fn lemma_starts_bounded(keys: Seq<RunKey>, starts: Seq<int>, j: int)
    requires
        is_partition(keys, starts),
        0 <= j < starts.len() - 1,
    ensures
        0 <= starts[j] < starts[j + 1] <= keys.len(),
{
    lemma_starts_above(keys, starts, j);
    lemma_starts_below(keys, starts, j + 1);
}

proof fn lemma_starts_above(keys: Seq<RunKey>, starts: Seq<int>, j: int)
    requires
        is_partition(keys, starts),
        0 <= j < starts.len(),
    ensures
        0 <= starts[j],
    decreases j,
{
    if j > 0 {
        lemma_starts_above(keys, starts, j - 1);
        assert(starts[j - 1] < starts[j]);
    }
}

proof fn lemma_starts_below(keys: Seq<RunKey>, starts: Seq<int>, j: int)
    requires
        is_partition(keys, starts),
        0 <= j < starts.len(),
    ensures
        starts[j] <= keys.len(),
    decreases starts.len() - j,
{
    if j < starts.len() - 1 {
        lemma_starts_below(keys, starts, j + 1);
        assert(starts[j] < starts[j + 1]);
    }
}

proof fn lemma_block_single(cells: Seq<Indexed<Cell>>, i: int)
    requires
        0 <= i < cells.len(),
    ensures
        base_chars(cells.subrange(i, i + 1)) == seq![cells[i].inner.c],
        zerowidth_slots(cells.subrange(i, i + 1)) == seq![cells[i].inner.extra@],
{
    assert(base_chars(cells.subrange(i, i + 1)) =~= seq![cells[i].inner.c]);
    assert(zerowidth_slots(cells.subrange(i, i + 1)) =~= seq![cells[i].inner.extra@]);
}

proof fn lemma_block_extend(cells: Seq<Indexed<Cell>>, lo: int, hi: int)
    requires
        0 <= lo <= hi < cells.len(),
    ensures
        base_chars(cells.subrange(lo, hi + 1)) == base_chars(cells.subrange(lo, hi)).push(
            cells[hi].inner.c,
        ),
        zerowidth_slots(cells.subrange(lo, hi + 1)) == zerowidth_slots(cells.subrange(lo, hi)).push(
            cells[hi].inner.extra@,
        ),
{
    assert(base_chars(cells.subrange(lo, hi + 1)) =~= base_chars(cells.subrange(lo, hi)).push(
        cells[hi].inner.c,
    ));
    assert(zerowidth_slots(cells.subrange(lo, hi + 1)) =~= zerowidth_slots(
        cells.subrange(lo, hi),
    ).push(cells[hi].inner.extra@));
}

/// Along a contiguous line, columns grow by one from cell to cell.
proof fn lemma_columns(cells: Seq<Indexed<Cell>>, lo: int, hi: int)
    requires
        contiguous(cells),
        0 <= lo <= hi < cells.len(),
    ensures
        cells[hi].column == cells[lo].column + (hi - lo),
    decreases hi - lo,
{
    if hi > lo {
        lemma_columns(cells, lo, hi - 1);
        assert(cells[hi].column == cells[hi - 1].column + 1);
    }
}

} // verus!
