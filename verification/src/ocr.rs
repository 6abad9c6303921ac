//! The unified OCR result model: words with pixel bounding boxes, lines
//! grouping words with a union bounding box and inter-word gaps, and a
//! result tying the lines to one flattened text rendering.

use vstd::prelude::*;
use crate::text::{join_with, spec_join};

verus! {

/// One recognized token and its axis-aligned bounding box in the pixel
/// space of the source image; `y` runs from the image's top edge.
#[derive(Debug)]
pub struct OcrWord {
    pub text: String,
    pub x: i64,
    pub y: i64,
    pub width: i64,
    pub height: i64,
}

/// One visual text line: its words in reading order, the union of their
/// boxes, the horizontal gaps between consecutive words, and the words
/// joined by single spaces.
#[derive(Debug)]
pub struct OcrLine {
    pub text: String,
    pub x: i64,
    pub y: i64,
    pub width: i64,
    pub height: i64,
    pub words: Vec<OcrWord>,
    pub word_gaps: Vec<i64>,
}

/// The whole recognition result: lines in final order and their texts
/// joined by newlines.
#[derive(Debug)]
pub struct OcrResult {
    pub text: String,
    pub lines: Vec<OcrLine>,
}

pub ghost struct OcrWordView {
    pub text: Seq<char>,
    pub x: int,
    pub y: int,
    pub width: int,
    pub height: int,
}

pub ghost struct OcrLineView {
    pub text: Seq<char>,
    pub x: int,
    pub y: int,
    pub width: int,
    pub height: int,
    pub words: Seq<OcrWordView>,
    pub word_gaps: Seq<int>,
}

pub ghost struct OcrResultView {
    pub text: Seq<char>,
    pub lines: Seq<OcrLineView>,
}

impl View for OcrWord {
    type V = OcrWordView;

    open spec fn view(&self) -> OcrWordView {
        OcrWordView {
            text: self.text@,
            x: self.x as int,
            y: self.y as int,
            width: self.width as int,
            height: self.height as int,
        }
    }
}

impl View for OcrLine {
    type V = OcrLineView;

    open spec fn view(&self) -> OcrLineView {
        OcrLineView {
            text: self.text@,
            x: self.x as int,
            y: self.y as int,
            width: self.width as int,
            height: self.height as int,
            words: self.words@.map_values(|w: OcrWord| w@),
            word_gaps: self.word_gaps@.map_values(|g: i64| g as int),
        }
    }
}

impl View for OcrResult {
    type V = OcrResultView;

    open spec fn view(&self) -> OcrResultView {
        OcrResultView { text: self.text@, lines: self.lines@.map_values(|l: OcrLine| l@) }
    }
}

/// Coordinates the pipeline works with stay far inside the `i64` range, so
/// that box unions and gap differences never overflow. Both sources
/// respect this: tabular rows carry 32-bit values, and the vision path's
/// pixel coordinates are bounded by the image extent.
pub open spec fn spec_coord_ok(v: int) -> bool {
    -0x1000_0000_0000_0000 < v < 0x1000_0000_0000_0000
}

pub open spec fn spec_word_coords_ok(w: OcrWordView) -> bool {
    &&& spec_coord_ok(w.x)
    &&& spec_coord_ok(w.y)
    &&& spec_coord_ok(w.width)
    &&& spec_coord_ok(w.height)
}

/// The horizontal gap between two consecutive words: the space between
/// the first word's right edge and the second word's left edge, never
/// negative.
pub open spec fn spec_word_gap(a: OcrWordView, b: OcrWordView) -> int {
    let g = b.x - (a.x + a.width);
    if g < 0 {
        0
    } else {
        g
    }
}

/// The gaps of a word list: one per adjacent pair.
pub open spec fn spec_word_gaps(words: Seq<OcrWordView>) -> Seq<int> {
    if words.len() == 0 {
        Seq::empty()
    } else {
        Seq::new((words.len() - 1) as nat, |i: int| spec_word_gap(words[i], words[i + 1]))
    }
}

/// Compute the inter-word gaps of a word list. For any non-empty list the
/// gap list has exactly one element fewer than the word list, and every
/// gap is non-negative.
pub fn word_gaps(words: &Vec<OcrWord>) -> (gaps: Vec<i64>)
    requires
        forall|i: int| 0 <= i < words@.len() ==> spec_word_coords_ok((#[trigger] words@[i])@),
    ensures
        gaps@.map_values(|g: i64| g as int) == spec_word_gaps(words@.map_values(|w: OcrWord| w@)),
        words@.len() > 0 ==> gaps@.len() == words@.len() - 1,
        words@.len() == 0 ==> gaps@.len() == 0,
        forall|i: int| 0 <= i < gaps@.len() ==> #[trigger] gaps@[i] >= 0,
{
    let ghost ws = words@.map_values(|w: OcrWord| w@);
    let mut gaps: Vec<i64> = Vec::new();
    if words.len() == 0 {
        proof {
            assert(gaps@.map_values(|g: i64| g as int) =~= spec_word_gaps(ws));
        }
        return gaps;
    }
    let mut i: usize = 0;
    while i + 1 < words.len()
        invariant
            ws == words@.map_values(|w: OcrWord| w@),
            forall|k: int| 0 <= k < words@.len() ==> spec_word_coords_ok((#[trigger] words@[k])@),
            words@.len() > 0,
            words@.len() <= usize::MAX,
            i < words@.len(),
            gaps@.len() == i,
            forall|k: int|
                0 <= k < i ==> (#[trigger] gaps@[k]) as int == spec_word_gap(ws[k], ws[k + 1]),
            forall|k: int| 0 <= k < i ==> #[trigger] gaps@[k] >= 0,
        decreases words@.len() - i,
    {
        let a = &words[i];
        let b = &words[i + 1];
        let g: i64 = b.x - (a.x + a.width);
        if g < 0 {
            gaps.push(0);
        } else {
            gaps.push(g);
        }
        i = i + 1;
    }
    proof {
        assert(gaps@.map_values(|g: i64| g as int) =~= spec_word_gaps(ws));
    }
    gaps
}

/// The leftmost edge of a word list's boxes.
pub open spec fn spec_min_x(words: Seq<OcrWordView>) -> int
    recommends
        words.len() > 0,
    decreases words.len(),
{
    if words.len() <= 1 {
        words[0].x
    } else {
        let rest = spec_min_x(words.drop_last());
        if words.last().x < rest {
            words.last().x
        } else {
            rest
        }
    }
}

/// The topmost edge of a word list's boxes.
pub open spec fn spec_min_y(words: Seq<OcrWordView>) -> int
    recommends
        words.len() > 0,
    decreases words.len(),
{
    if words.len() <= 1 {
        words[0].y
    } else {
        let rest = spec_min_y(words.drop_last());
        if words.last().y < rest {
            words.last().y
        } else {
            rest
        }
    }
}

/// The rightmost edge of a word list's boxes.
pub open spec fn spec_max_right(words: Seq<OcrWordView>) -> int
    recommends
        words.len() > 0,
    decreases words.len(),
{
    if words.len() <= 1 {
        words[0].x + words[0].width
    } else {
        let rest = spec_max_right(words.drop_last());
        let own = words.last().x + words.last().width;
        if own > rest {
            own
        } else {
            rest
        }
    }
}

/// The bottommost edge of a word list's boxes.
pub open spec fn spec_max_bottom(words: Seq<OcrWordView>) -> int
    recommends
        words.len() > 0,
    decreases words.len(),
{
    if words.len() <= 1 {
        words[0].y + words[0].height
    } else {
        let rest = spec_max_bottom(words.drop_last());
        let own = words.last().y + words.last().height;
        if own > rest {
            own
        } else {
            rest
        }
    }
}

/// The line a non-empty word list makes: bounding box the componentwise
/// min/max over the words' boxes, text the words joined by single spaces,
/// and the inter-word gaps.
pub open spec fn spec_line_of_words(words: Seq<OcrWordView>) -> OcrLineView
    recommends
        words.len() > 0,
{
    OcrLineView {
        text: spec_join(words.map_values(|w: OcrWordView| w.text), " "@),
        x: spec_min_x(words),
        y: spec_min_y(words),
        width: spec_max_right(words) - spec_min_x(words),
        height: spec_max_bottom(words) - spec_min_y(words),
        words: words,
        word_gaps: spec_word_gaps(words),
    }
}

/// A line is well formed when its gap list pairs its words — one gap per
/// adjacent pair, none negative.
pub open spec fn spec_line_wf(l: OcrLineView) -> bool {
    &&& l.word_gaps.len() == (if l.words.len() == 0 {
        0int
    } else {
        l.words.len() - 1
    })
    &&& forall|i: int| 0 <= i < l.word_gaps.len() ==> #[trigger] l.word_gaps[i] >= 0
}

/// Every line a non-empty word list makes is well formed.
pub proof fn lemma_line_of_words_wf(words: Seq<OcrWordView>)
    requires
        words.len() > 0,
    ensures
        spec_line_wf(spec_line_of_words(words)),
{
}

/// Assemble one line from its words, in reading order.
pub fn build_line_from_words(words: Vec<OcrWord>) -> (line: OcrLine)
    requires
        words@.len() > 0,
        forall|i: int| 0 <= i < words@.len() ==> spec_word_coords_ok((#[trigger] words@[i])@),
    ensures
        line@ == spec_line_of_words(words@.map_values(|w: OcrWord| w@)),
        spec_line_wf(line@),
{
    let ghost ws = words@.map_values(|w: OcrWord| w@);
    let gaps = word_gaps(&words);
    let mut texts: Vec<String> = Vec::new();
    let mut min_x: i64 = words[0].x;
    let mut min_y: i64 = words[0].y;
    let mut max_right: i64 = words[0].x + words[0].width;
    let mut max_bottom: i64 = words[0].y + words[0].height;
    let mut i: usize = 0;
    while i < words.len()
        invariant
            ws == words@.map_values(|w: OcrWord| w@),
            forall|k: int| 0 <= k < words@.len() ==> spec_word_coords_ok((#[trigger] words@[k])@),
            words@.len() > 0,
            i <= words@.len(),
            texts@.len() == i,
            forall|k: int| 0 <= k < i ==> (#[trigger] texts@[k])@ == ws[k].text,
            i > 0 ==> min_x as int == spec_min_x(ws.take(i as int)),
            i > 0 ==> min_y as int == spec_min_y(ws.take(i as int)),
            i > 0 ==> max_right as int == spec_max_right(ws.take(i as int)),
            i > 0 ==> max_bottom as int == spec_max_bottom(ws.take(i as int)),
            spec_coord_ok(min_x as int),
            spec_coord_ok(min_y as int),
            -0x2000_0000_0000_0000 < (max_right as int) && (max_right as int) < 0x2000_0000_0000_0000,
            -0x2000_0000_0000_0000 < (max_bottom as int) && (max_bottom as int) < 0x2000_0000_0000_0000,
            i == 0 ==> min_x == words@[0].x && min_y == words@[0].y,
            i == 0 ==> max_right as int == words@[0].x + words@[0].width,
            i == 0 ==> max_bottom as int == words@[0].y + words@[0].height,
        decreases words@.len() - i,
    {
        let w = &words[i];
        texts.push(w.text.clone());
        if w.x < min_x {
            min_x = w.x;
        }
        if w.y < min_y {
            min_y = w.y;
        }
        let right: i64 = w.x + w.width;
        if right > max_right {
            max_right = right;
        }
        let bottom: i64 = w.y + w.height;
        if bottom > max_bottom {
            max_bottom = bottom;
        }
        proof {
            assert(ws.take(i + 1).drop_last() =~= ws.take(i as int));
            if i == 0 {
                assert(spec_min_x(ws.take(1)) == ws[0].x);
            }
        }
        i = i + 1;
    }
    proof {
        assert(ws.take(words@.len() as int) =~= ws);
        assert(texts@.map_values(|t: String| t@) =~= ws.map_values(|w: OcrWordView| w.text));
    }
    let text = join_with(&texts, " ");
    let line = OcrLine {
        text,
        x: min_x,
        y: min_y,
        width: max_right - min_x,
        height: max_bottom - min_y,
        words,
        word_gaps: gaps,
    };
    proof {
        assert(line@.words =~= ws);
        assert(line@.word_gaps =~= spec_word_gaps(ws));
    }
    line
}

/// Assemble the final result: the lines in their final order and their
/// texts joined by newlines.
pub fn build_result_from_lines(lines: Vec<OcrLine>) -> (out: OcrResult)
    ensures
        out@.lines == lines@.map_values(|l: OcrLine| l@),
        out@.text == spec_join(
            lines@.map_values(|l: OcrLine| l@).map_values(|l: OcrLineView| l.text),
            "\n"@,
        ),
{
    let mut texts: Vec<String> = Vec::new();
    let mut i: usize = 0;
    while i < lines.len()
        invariant
            i <= lines@.len(),
            texts@.len() == i,
            forall|k: int| 0 <= k < i ==> (#[trigger] texts@[k])@ == lines@[k]@.text,
        decreases lines@.len() - i,
    {
        texts.push(lines[i].text.clone());
        i = i + 1;
    }
    let text = join_with(&texts, "\n");
    proof {
        assert(texts@.map_values(|t: String| t@) =~= lines@.map_values(|l: OcrLine| l@).map_values(
            |l: OcrLineView| l.text,
        ));
    }
    OcrResult { text, lines }
}

} // verus!
