//! The tabular-output layout reconstructor. The command-line backend
//! prints one row per recognized item, tab-separated, with a header row
//! first. Only word-level rows — the finest hierarchy level — are kept;
//! rows sharing a (block, paragraph, line) key form one line, ordered by
//! word index; lines are emitted in ascending key order, a stable, not a
//! spatial, sort.

use vstd::prelude::*;
use crate::error::Error;
use crate::ocr::{
    build_line_from_words, build_result_from_lines, spec_line_of_words, spec_max_bottom,
    spec_max_right, spec_min_x, spec_min_y, spec_word_coords_ok, OcrLine, OcrLineView, OcrResult,
    OcrResultView, OcrWord, OcrWordView,
};
use crate::text::{
    chars_of, lines_windows, parse_i32_window, split_window, spec_join, spec_lines,
    spec_parse_i32_or_zero, spec_split, spec_trimmed, trim_window,
};

verus! {

/// One word-level row of the tabular output: its position in the layout
/// hierarchy and the recognized word.
#[derive(Debug)]
pub struct TsvRow {
    pub block_num: i32,
    pub par_num: i32,
    pub line_num: i32,
    pub word_num: i32,
    pub word: OcrWord,
}

pub ghost struct TsvRowView {
    pub block_num: int,
    pub par_num: int,
    pub line_num: int,
    pub word_num: int,
    pub word: OcrWordView,
}

impl View for TsvRow {
    type V = TsvRowView;

    open spec fn view(&self) -> TsvRowView {
        TsvRowView {
            block_num: self.block_num as int,
            par_num: self.par_num as int,
            line_num: self.line_num as int,
            word_num: self.word_num as int,
            word: self.word@,
        }
    }
}

/// The word row one output line yields, if any: a row is kept when it has
/// the full column count, sits at the word hierarchy level, and its text
/// is non-empty after trimming.
pub open spec fn spec_row_of_line(line: Seq<char>) -> Option<TsvRowView> {
    let cols = spec_split(line, '\t');
    if cols.len() < 12 {
        None
    } else if spec_parse_i32_or_zero(cols[0]) != 5 {
        None
    } else if spec_trimmed(cols[11]).len() == 0 {
        None
    } else {
        Some(
            TsvRowView {
                block_num: spec_parse_i32_or_zero(cols[2]) as int,
                par_num: spec_parse_i32_or_zero(cols[3]) as int,
                line_num: spec_parse_i32_or_zero(cols[4]) as int,
                word_num: spec_parse_i32_or_zero(cols[5]) as int,
                word: OcrWordView {
                    text: spec_trimmed(cols[11]),
                    x: spec_parse_i32_or_zero(cols[6]) as int,
                    y: spec_parse_i32_or_zero(cols[7]) as int,
                    width: spec_parse_i32_or_zero(cols[8]) as int,
                    height: spec_parse_i32_or_zero(cols[9]) as int,
                },
            },
        )
    }
}

/// The word rows of the output lines from index `k` on.
pub open spec fn spec_rows_from(lines: Seq<Seq<char>>, k: int) -> Seq<TsvRowView>
    decreases lines.len() - k,
{
    if k < 0 || k >= lines.len() {
        Seq::empty()
    } else {
        match spec_row_of_line(lines[k]) {
            Some(r) => seq![r] + spec_rows_from(lines, k + 1),
            None => spec_rows_from(lines, k + 1),
        }
    }
}

/// All word rows of a tabular output, the header row skipped.
pub open spec fn spec_tsv_rows(s: Seq<char>) -> Seq<TsvRowView> {
    spec_rows_from(spec_lines(s), 1)
}

pub open spec fn spec_row_coords_ok(r: TsvRowView) -> bool {
    spec_word_coords_ok(r.word)
}

/// Collect the word rows of the output, in row order.
fn collect_rows(tsv: &str, chars: &Vec<char>) -> (rows: Vec<TsvRow>)
    requires
        chars@ == tsv@,
    ensures
        rows@.map_values(|r: TsvRow| r@) == spec_tsv_rows(tsv@),
        forall|k: int| 0 <= k < rows@.len() ==> spec_row_coords_ok((#[trigger] rows@[k])@),
{
    let lws = lines_windows(chars);
    let ghost lns = spec_lines(chars@);
    let mut rows: Vec<TsvRow> = Vec::new();
    let mut k: usize = 1;
    if lws.len() < 2 {
        proof {
            assert(rows@.map_values(|r: TsvRow| r@) =~= spec_tsv_rows(tsv@));
        }
        return rows;
    }
    while k < lws.len()
        invariant
            chars@ == tsv@,
            lns == spec_lines(chars@),
            lws@.len() == lns.len(),
            forall|j: int|
                0 <= j < lws@.len() ==> (#[trigger] lws@[j]).0 <= lws@[j].1 <= chars@.len()
                    && chars@.subrange(lws@[j].0 as int, lws@[j].1 as int) == lns[j],
            1 <= k <= lws@.len(),
            spec_tsv_rows(tsv@) == rows@.map_values(|r: TsvRow| r@) + spec_rows_from(
                lns,
                k as int,
            ),
            forall|j: int| 0 <= j < rows@.len() ==> spec_row_coords_ok((#[trigger] rows@[j])@),
        decreases lws@.len() - k,
    {
        let lo = lws[k].0;
        let hi = lws[k].1;
        let ghost line = lns[k as int];
        let cols = split_window(chars, lo, hi, '\t');
        let ghost scols = spec_split(line, '\t');
        if cols.len() >= 12 {
            let level = parse_i32_window(chars, cols[0].0, cols[0].1);
            if level == 5 {
                let (ta, tb) = trim_window(chars, cols[11].0, cols[11].1);
                if ta < tb {
                    let text = String::from_str(tsv.substring_char(ta, tb));
                    let block_num = parse_i32_window(chars, cols[2].0, cols[2].1);
                    let par_num = parse_i32_window(chars, cols[3].0, cols[3].1);
                    let line_num = parse_i32_window(chars, cols[4].0, cols[4].1);
                    let word_num = parse_i32_window(chars, cols[5].0, cols[5].1);
                    let x = parse_i32_window(chars, cols[6].0, cols[6].1);
                    let y = parse_i32_window(chars, cols[7].0, cols[7].1);
                    let width = parse_i32_window(chars, cols[8].0, cols[8].1);
                    let height = parse_i32_window(chars, cols[9].0, cols[9].1);
                    let row = TsvRow {
                        block_num,
                        par_num,
                        line_num,
                        word_num,
                        word: OcrWord {
                            text,
                            x: x as i64,
                            y: y as i64,
                            width: width as i64,
                            height: height as i64,
                        },
                    };
                    proof {
                        assert(spec_row_of_line(line) == Some(row@));
                    }
                    rows.push(row);
                    proof {
                        assert(rows@.map_values(|r: TsvRow| r@).drop_last() =~= rows@.map_values(
                            |r: TsvRow| r@,
                        ).take(rows@.len() - 1));
                        assert(spec_tsv_rows(tsv@) =~= rows@.map_values(|r: TsvRow| r@)
                            + spec_rows_from(lns, k + 1));
                    }
                } else {
                    proof {
                        assert(spec_trimmed(scols[11]).len() == 0);
                        assert(spec_row_of_line(line) is None);
                    }
                }
            } else {
                proof {
                    assert(spec_row_of_line(line) is None);
                }
            }
        } else {
            proof {
                assert(spec_row_of_line(line) is None);
            }
        }
        k = k + 1;
    }
    proof {
        assert(spec_rows_from(lns, lws@.len() as int) =~= Seq::<TsvRowView>::empty());
        assert(rows@.map_values(|r: TsvRow| r@) =~= spec_tsv_rows(tsv@));
    }
    rows
}

/// Row order: ascending block, then paragraph, then line, then word
/// index. A total order, so rows with fully equal keys compare equal both
/// ways and keep their input order under the stable insertion below.
pub open spec fn spec_row_le(a: TsvRowView, b: TsvRowView) -> bool {
    if a.block_num != b.block_num {
        a.block_num < b.block_num
    } else if a.par_num != b.par_num {
        a.par_num < b.par_num
    } else if a.line_num != b.line_num {
        a.line_num < b.line_num
    } else {
        a.word_num <= b.word_num
    }
}

/// `r` inserted behind the last element of `s` that is not above it — the
/// stable insertion step.
pub open spec fn spec_insert_row(r: TsvRowView, s: Seq<TsvRowView>) -> Seq<TsvRowView>
    decreases s.len(),
{
    if s.len() == 0 {
        seq![r]
    } else if spec_row_le(s.last(), r) {
        s.push(r)
    } else {
        spec_insert_row(r, s.drop_last()).push(s.last())
    }
}

/// Stable insertion sort by the row order.
pub open spec fn spec_sort_rows(s: Seq<TsvRowView>) -> Seq<TsvRowView>
    decreases s.len(),
{
    if s.len() == 0 {
        s
    } else {
        spec_insert_row(s.last(), spec_sort_rows(s.drop_last()))
    }
}

fn row_le(a: &TsvRow, b: &TsvRow) -> (r: bool)
    ensures
        r == spec_row_le(a@, b@),
{
    if a.block_num != b.block_num {
        a.block_num < b.block_num
    } else if a.par_num != b.par_num {
        a.par_num < b.par_num
    } else if a.line_num != b.line_num {
        a.line_num < b.line_num
    } else {
        a.word_num <= b.word_num
    }
}

fn insert_row_sorted(out: &mut Vec<TsvRow>, r: TsvRow)
    requires
        spec_row_coords_ok(r@),
        forall|k: int| 0 <= k < old(out)@.len() ==> spec_row_coords_ok((#[trigger] old(out)@[k])@),
    ensures
        final(out)@.map_values(|t: TsvRow| t@) == spec_insert_row(
            r@,
            old(out)@.map_values(|t: TsvRow| t@),
        ),
        forall|k: int| 0 <= k < final(out)@.len() ==> spec_row_coords_ok((#[trigger] final(out)@[k])@),
    decreases old(out)@.len(),
{
    let ghost before = out@.map_values(|t: TsvRow| t@);
    if out.len() == 0 {
        out.push(r);
        proof {
            assert(out@.map_values(|t: TsvRow| t@) =~= seq![r@]);
        }
        return ;
    }
    let le = row_le(&out[out.len() - 1], &r);
    if le {
        out.push(r);
        proof {
            assert(out@.map_values(|t: TsvRow| t@) =~= before.push(r@));
            assert(before.last() == out@[out@.len() - 2]@);
        }
    } else {
        let last = match out.pop() {
            Some(l) => l,
            None => {
                proof {
                    assert(false);
                }
                return ;
            },
        };
        proof {
            assert(out@.map_values(|t: TsvRow| t@) =~= before.drop_last());
            assert(last@ == before.last());
        }
        insert_row_sorted(out, r);
        out.push(last);
        proof {
            assert(out@.map_values(|t: TsvRow| t@) =~= spec_insert_row(
                r@,
                before.drop_last(),
            ).push(before.last()));
        }
    }
}

/// Sort the rows, keeping the input order of rows with equal keys.
fn sort_rows(rows: Vec<TsvRow>) -> (out: Vec<TsvRow>)
    requires
        forall|k: int| 0 <= k < rows@.len() ==> spec_row_coords_ok((#[trigger] rows@[k])@),
    ensures
        out@.map_values(|t: TsvRow| t@) == spec_sort_rows(rows@.map_values(|t: TsvRow| t@)),
        forall|k: int| 0 <= k < out@.len() ==> spec_row_coords_ok((#[trigger] out@[k])@),
{
    let ghost all = rows@.map_values(|t: TsvRow| t@);
    let mut rest = rows;
    let n = rest.len();
    proof {
        assert(all.len() == rest@.len());
        assert(rest@.map_values(|t: TsvRow| t@) =~= all.subrange(0, all.len() as int));
    }
    let mut out: Vec<TsvRow> = Vec::new();
    let mut idx: usize = 0;
    while rest.len() > 0
        invariant
            all.len() <= usize::MAX,
            all.len() == idx + rest@.len(),
            rest@.map_values(|t: TsvRow| t@) == all.subrange(idx as int, all.len() as int),
            out@.map_values(|t: TsvRow| t@) == spec_sort_rows(all.take(idx as int)),
            forall|k: int| 0 <= k < all.len() ==> spec_row_coords_ok(#[trigger] all[k]),
            forall|k: int| 0 <= k < out@.len() ==> spec_row_coords_ok((#[trigger] out@[k])@),
            forall|k: int| 0 <= k < rest@.len() ==> spec_row_coords_ok((#[trigger] rest@[k])@),
        decreases rest@.len(),
    {
        let ghost prev = rest@;
        let r = rest.remove(0);
        proof {
            assert(prev.map_values(|t: TsvRow| t@)[0] == r@);
            assert(r@ == all[idx as int]);
            assert(rest@ =~= prev.subrange(1, prev.len() as int));
            assert(forall|k: int|
                0 <= k < rest@.len() ==> (#[trigger] rest@[k]) == prev[k + 1]);
            assert(rest@.map_values(|t: TsvRow| t@) =~= all.subrange(idx + 1, all.len() as int))
                by {
                let m = rest@.map_values(|t: TsvRow| t@);
                let pm = prev.map_values(|t: TsvRow| t@);
                assert forall|k: int| 0 <= k < m.len() implies m[k] == all[idx + 1 + k] by {
                    assert(rest@[k] == prev[k + 1]);
                    assert(m[k] == rest@[k]@);
                    assert(pm[k + 1] == prev[k + 1]@);
                    assert(pm[k + 1] == all.subrange(idx as int, all.len() as int)[k + 1]);
                }
            }
        }
        insert_row_sorted(&mut out, r);
        proof {
            assert(all.take(idx + 1).drop_last() =~= all.take(idx as int));
            assert(all.take(idx + 1).last() == all[idx as int]);
        }
        idx = idx + 1;
    }
    proof {
        assert(all.take(all.len() as int) =~= all);
    }
    out
}

/// Whether two rows belong to the same visual line: equal block,
/// paragraph and line numbers.
pub open spec fn spec_same_key(a: TsvRowView, b: TsvRowView) -> bool {
    a.block_num == b.block_num && a.par_num == b.par_num && a.line_num == b.line_num
}

/// Consecutive same-key rows gathered into groups, in order.
pub open spec fn spec_group_rows(rows: Seq<TsvRowView>) -> Seq<Seq<TsvRowView>>
    decreases rows.len(),
{
    if rows.len() == 0 {
        Seq::empty()
    } else {
        let g = spec_group_rows(rows.drop_last());
        if g.len() > 0 && g.last().len() > 0 && spec_same_key(g.last().last(), rows.last()) {
            g.update(g.len() - 1, g.last().push(rows.last()))
        } else {
            g.push(seq![rows.last()])
        }
    }
}

/// The lines the groups make, one line per group.
pub open spec fn spec_lines_of_groups(gs: Seq<Seq<TsvRowView>>) -> Seq<OcrLineView> {
    gs.map_values(
        |g: Seq<TsvRowView>| spec_line_of_words(g.map_values(|r: TsvRowView| r.word)),
    )
}

/// The whole reconstruction of one tabular output: rows collected, sorted
/// by ascending (block, paragraph, line, word) key, grouped by line key,
/// each group made a line, and the line texts joined by newlines.
pub open spec fn spec_tsv_result(s: Seq<char>) -> OcrResultView {
    let lines = spec_lines_of_groups(spec_group_rows(spec_sort_rows(spec_tsv_rows(s))));
    OcrResultView {
        text: spec_join(lines.map_values(|l: OcrLineView| l.text), "\n"@),
        lines,
    }
}

/// The words of a group of rows, in row order.
fn rows_to_words(rows: Vec<TsvRow>) -> (words: Vec<OcrWord>)
    ensures
        words@.map_values(|w: OcrWord| w@) == rows@.map_values(|t: TsvRow| t@).map_values(
            |r: TsvRowView| r.word,
        ),
        words@.len() == rows@.len(),
{
    let ghost all = rows@;
    let mut rest = rows;
    let mut words: Vec<OcrWord> = Vec::new();
    proof {
        assert(rest@ =~= all.subrange(0, all.len() as int));
    }
    while rest.len() > 0
        invariant
            words@.len() + rest@.len() == all.len(),
            rest@ == all.subrange(words@.len() as int, all.len() as int),
            forall|k: int|
                0 <= k < words@.len() ==> (#[trigger] words@[k])@ == all[k]@.word,
        decreases rest@.len(),
    {
        let ghost prev = rest@;
        let row = rest.remove(0);
        proof {
            assert(row == all[words@.len() as int]);
            assert(rest@ =~= all.subrange(words@.len() as int + 1, all.len() as int));
        }
        words.push(row.word);
    }
    proof {
        let lhs = words@.map_values(|w: OcrWord| w@);
        let rhs = all.map_values(|t: TsvRow| t@).map_values(|r: TsvRowView| r.word);
        assert forall|k: int| 0 <= k < lhs.len() implies lhs[k] == rhs[k] by {
            assert(words@[k]@ == all[k]@.word);
            assert(all.map_values(|t: TsvRow| t@)[k] == all[k]@);
        }
        assert(lhs =~= rhs);
    }
    words
}

fn same_key(a: &TsvRow, b: &TsvRow) -> (r: bool)
    ensures
        r == spec_same_key(a@, b@),
{
    a.block_num == b.block_num && a.par_num == b.par_num && a.line_num == b.line_num
}


proof fn lemma_lines_of_groups_push(gs: Seq<Seq<TsvRowView>>, g: Seq<TsvRowView>)
    ensures
        spec_lines_of_groups(gs.push(g)) == spec_lines_of_groups(gs).push(
            spec_line_of_words(g.map_values(|r: TsvRowView| r.word)),
        ),
{
    assert(spec_lines_of_groups(gs.push(g)) =~= spec_lines_of_groups(gs).push(
        spec_line_of_words(g.map_values(|r: TsvRowView| r.word)),
    ));
}

/// Close one group: turn its rows into a line and append it.
fn flush_group(lines: &mut Vec<OcrLine>, current: Vec<TsvRow>)
    requires
        current@.len() > 0,
        forall|k: int| 0 <= k < current@.len() ==> spec_row_coords_ok((#[trigger] current@[k])@),
    ensures
        final(lines)@.map_values(|l: OcrLine| l@) == old(lines)@.map_values(|l: OcrLine| l@).push(
            spec_line_of_words(
                current@.map_values(|t: TsvRow| t@).map_values(|r: TsvRowView| r.word),
            ),
        ),
{
    let ghost cur_views = current@.map_values(|t: TsvRow| t@);
    proof {
        assert forall|k: int| 0 <= k < cur_views.len() implies spec_row_coords_ok(
            #[trigger] cur_views[k],
        ) by {
            assert(cur_views[k] == current@[k]@);
        }
    }
    let words = rows_to_words(current);
    proof {
        assert(words@.len() > 0);
        assert forall|k: int| 0 <= k < words@.len() implies spec_word_coords_ok(
            (#[trigger] words@[k])@,
        ) by {
            assert(words@[k]@ == cur_views.map_values(|t: TsvRowView| t.word)[k]);
            assert(cur_views.map_values(|t: TsvRowView| t.word)[k] == cur_views[k].word);
        }
    }
    let line = build_line_from_words(words);
    lines.push(line);
    proof {
        assert(final(lines)@.map_values(|l: OcrLine| l@) =~= old(lines)@.map_values(
            |l: OcrLine| l@,
        ).push(spec_line_of_words(cur_views.map_values(|r: TsvRowView| r.word))));
    }
}

/// Reconstruct the unified result from one tabular output. Never fails:
/// rows that do not parse are simply not word rows and are dropped.
pub fn parse_tesseract_tsv(tsv: &str) -> (out: Result<OcrResult, Error>)
    ensures
        out is Ok,
        out->Ok_0@ == spec_tsv_result(tsv@),
{
    let chars = chars_of(tsv);
    let rows = collect_rows(tsv, &chars);
    let sorted = sort_rows(rows);
    let ghost all = sorted@.map_values(|t: TsvRow| t@);
    let mut rest = sorted;
    let n = rest.len();
    proof {
        assert(all.len() == rest@.len());
        assert(rest@.map_values(|t: TsvRow| t@) =~= all.subrange(0, all.len() as int));
        assert forall|k: int| 0 <= k < all.len() implies spec_row_coords_ok(
            #[trigger] all[k],
        ) by {
            assert(all[k] == rest@[k]@);
        }
    }
    let mut lines: Vec<OcrLine> = Vec::new();
    let mut current: Vec<TsvRow> = Vec::new();
    let ghost mut gdone: Seq<Seq<TsvRowView>> = Seq::empty();
    let mut idx: usize = 0;
    while rest.len() > 0
        invariant
            all.len() <= usize::MAX,
            all.len() == idx + rest@.len(),
            rest@.map_values(|t: TsvRow| t@) == all.subrange(idx as int, all.len() as int),
            forall|k: int| 0 <= k < all.len() ==> spec_row_coords_ok(#[trigger] all[k]),
            forall|k: int|
                0 <= k < current@.len() ==> spec_row_coords_ok((#[trigger] current@[k])@),
            spec_group_rows(all.take(idx as int)) == (if current@.len() == 0 {
                gdone
            } else {
                gdone.push(current@.map_values(|t: TsvRow| t@))
            }),
            idx == 0 ==> current@.len() == 0 && gdone.len() == 0,
            idx > 0 ==> current@.len() > 0,
            lines@.map_values(|l: OcrLine| l@) == spec_lines_of_groups(gdone),
        decreases rest@.len(),
    {
        let ghost prev = rest@;
        let r = rest.remove(0);
        proof {
            assert(prev.map_values(|t: TsvRow| t@)[0] == r@);
            assert(r@ == all[idx as int]);
            assert(rest@ =~= prev.subrange(1, prev.len() as int));
            assert(rest@.map_values(|t: TsvRow| t@) =~= all.subrange(idx + 1, all.len() as int))
                by {
                let m = rest@.map_values(|t: TsvRow| t@);
                let pm = prev.map_values(|t: TsvRow| t@);
                assert forall|k: int| 0 <= k < m.len() implies m[k] == all[idx + 1 + k] by {
                    assert(rest@[k] == prev[k + 1]);
                    assert(m[k] == rest@[k]@);
                    assert(pm[k + 1] == prev[k + 1]@);
                    assert(pm[k + 1] == all.subrange(idx as int, all.len() as int)[k + 1]);
                }
            }
            assert(all.take(idx + 1).drop_last() =~= all.take(idx as int));
            assert(all.take(idx + 1).last() == all[idx as int]);
        }
        let flush = current.len() > 0 && !same_key(&current[current.len() - 1], &r);
        proof {
            if current@.len() > 0 {
                let cm = current@.map_values(|t: TsvRow| t@);
                assert(cm.last() == current@[current@.len() - 1]@);
            }
        }
        if flush {
            let ghost cur_views = current@.map_values(|t: TsvRow| t@);
            flush_group(&mut lines, current);
            proof {
                let gprev = gdone;
                gdone = gdone.push(cur_views);
                lemma_lines_of_groups_push(gprev, cur_views);
            }
            current = Vec::new();
        }
        current.push(r);
        proof {
            let cm = current@.map_values(|t: TsvRow| t@);
            assert(cm.drop_last() =~= cm.take(cm.len() - 1));
            assert(cm.last() == r@);
            assert(spec_group_rows(all.take(idx + 1)) =~~= (if current@.len() == 0 {
                gdone
            } else {
                gdone.push(cm)
            }));
        }
        idx = idx + 1;
    }
    proof {
        assert(all.take(all.len() as int) =~= all);
    }
    if current.len() > 0 {
        let ghost cur_views = current@.map_values(|t: TsvRow| t@);
        flush_group(&mut lines, current);
        proof {
            let gprev = gdone;
            gdone = gdone.push(cur_views);
            lemma_lines_of_groups_push(gprev, cur_views);
        }
    }
    proof {
        assert(gdone =~~= spec_group_rows(spec_sort_rows(spec_tsv_rows(tsv@))));
    }
    let result = build_result_from_lines(lines);
    proof {
        assert(result@ == spec_tsv_result(tsv@));
    }
    Ok(result)
}

/// Law: two word rows that share a (block, paragraph, line) key merge
/// into one line of two words whose bounding box is the componentwise
/// min/max of both rows' boxes — whichever way their word indices order
/// them.
pub proof fn lemma_same_key_rows_merge(r1: TsvRowView, r2: TsvRowView)
    requires
        spec_same_key(r1, r2),
    ensures
        ({
            let lines = spec_lines_of_groups(spec_group_rows(spec_sort_rows(seq![r1, r2])));
            &&& lines.len() == 1
            &&& lines[0].words.len() == 2
            &&& lines[0].x == (if r1.word.x < r2.word.x {
                r1.word.x
            } else {
                r2.word.x
            })
            &&& lines[0].y == (if r1.word.y < r2.word.y {
                r1.word.y
            } else {
                r2.word.y
            })
            &&& lines[0].x + lines[0].width == (if r1.word.x + r1.word.width > r2.word.x
                + r2.word.width {
                r1.word.x + r1.word.width
            } else {
                r2.word.x + r2.word.width
            })
            &&& lines[0].y + lines[0].height == (if r1.word.y + r1.word.height > r2.word.y
                + r2.word.height {
                r1.word.y + r1.word.height
            } else {
                r2.word.y + r2.word.height
            })
        }),
{
    let s = seq![r1, r2];
    assert(s.drop_last() =~= seq![r1]);
    assert(seq![r1].drop_last() =~= Seq::<TsvRowView>::empty());
    assert(spec_sort_rows(Seq::<TsvRowView>::empty()) == Seq::<TsvRowView>::empty());
    assert(spec_insert_row(r1, Seq::<TsvRowView>::empty()) == seq![r1]);
    assert(spec_sort_rows(seq![r1]) == spec_insert_row(r1, Seq::<TsvRowView>::empty()));
    assert(spec_sort_rows(s) == spec_insert_row(r2, seq![r1]));
    let sorted = if spec_row_le(r1, r2) {
        seq![r1, r2]
    } else {
        seq![r2, r1]
    };
    assert(spec_insert_row(r2, seq![r1].drop_last()) == seq![r2]);
    assert(spec_sort_rows(s) =~= sorted);
    let a = sorted[0];
    let b = sorted[1];
    assert(sorted.drop_last() =~= seq![a]);
    assert(spec_group_rows(Seq::<TsvRowView>::empty()) == Seq::<Seq<TsvRowView>>::empty());
    assert(seq![a].drop_last() =~= Seq::<TsvRowView>::empty());
    assert(spec_group_rows(seq![a]) =~= seq![seq![a]]);
    assert(spec_same_key(a, b));
    let groups = spec_group_rows(sorted);
    assert(groups =~~= seq![seq![a, b]]);
    let words = seq![a, b].map_values(|r: TsvRowView| r.word);
    assert(words =~= seq![a.word, b.word]);
    let line = spec_line_of_words(words);
    assert(spec_lines_of_groups(groups) =~= seq![line]);
    assert(words.drop_last() =~= seq![a.word]);
    assert(spec_min_x(seq![a.word]) == a.word.x);
    assert(spec_min_x(words) == (if b.word.x < a.word.x {
        b.word.x
    } else {
        a.word.x
    }));
    assert(spec_min_y(seq![a.word]) == a.word.y);
    assert(spec_min_y(words) == (if b.word.y < a.word.y {
        b.word.y
    } else {
        a.word.y
    }));
    assert(spec_max_right(seq![a.word]) == a.word.x + a.word.width);
    assert(spec_max_right(words) == (if b.word.x + b.word.width > a.word.x + a.word.width {
        b.word.x + b.word.width
    } else {
        a.word.x + a.word.width
    }));
    assert(spec_max_bottom(seq![a.word]) == a.word.y + a.word.height);
    assert(spec_max_bottom(words) == (if b.word.y + b.word.height > a.word.y + a.word.height {
        b.word.y + b.word.height
    } else {
        a.word.y + a.word.height
    }));
}

} // verus!
