//! The vision-framework layout path. The OS text-recognition service
//! yields one top candidate per observation: a text and a normalized
//! bounding box with a bottom-left origin, the top edge at one. Each
//! observation becomes one line of one word; lines are sorted by top edge,
//! then left edge, ties kept in arrival order.
//!
//! Normalized coordinates arrive in millionths of the image extent, so
//! the conversion to pixels is exact integer arithmetic.

use vstd::prelude::*;
use crate::error::Error;
use crate::ocr::{build_result_from_lines, OcrLine, OcrLineView, OcrResult, OcrResultView, OcrWord, OcrWordView};
use crate::text::{chars_of, spec_join, spec_trimmed, trim_window};

verus! {

/// The number of normalized units that span the whole image.
pub open spec fn spec_unit_ppm() -> int {
    1_000_000
}

/// One observation of the text-recognition service: the top candidate's
/// text and the normalized bounding box, in millionths of the image
/// extent, with the bottom-left-origin, top-is-one convention.
#[derive(Debug)]
pub struct VisionObservation {
    pub text: String,
    pub x_ppm: u32,
    pub y_ppm: u32,
    pub width_ppm: u32,
    pub height_ppm: u32,
}

pub ghost struct VisionObservationView {
    pub text: Seq<char>,
    pub x_ppm: int,
    pub y_ppm: int,
    pub width_ppm: int,
    pub height_ppm: int,
}

impl View for VisionObservation {
    type V = VisionObservationView;

    open spec fn view(&self) -> VisionObservationView {
        VisionObservationView {
            text: self.text@,
            x_ppm: self.x_ppm as int,
            y_ppm: self.y_ppm as int,
            width_ppm: self.width_ppm as int,
            height_ppm: self.height_ppm as int,
        }
    }
}

/// A normalized box stays within the unit square.
pub open spec fn spec_obs_in_unit(o: VisionObservationView) -> bool {
    &&& 0 <= o.x_ppm <= spec_unit_ppm()
    &&& 0 <= o.y_ppm <= spec_unit_ppm()
    &&& 0 <= o.width_ppm <= spec_unit_ppm()
    &&& 0 <= o.height_ppm <= spec_unit_ppm()
}

/// A horizontal normalized measure scaled to pixels.
pub open spec fn spec_px_of_ppm(v_ppm: int, extent: int) -> int {
    (v_ppm * extent) / spec_unit_ppm()
}

/// The top edge in pixels: the normalized box is anchored at its bottom
/// edge from the image's bottom, so the top edge from the image's top is
/// one minus bottom minus height, floored at zero.
pub open spec fn spec_top_px(y_ppm: int, height_ppm: int, img_h: int) -> int {
    let t = spec_unit_ppm() - y_ppm - height_ppm;
    if t <= 0 {
        0
    } else {
        (t * img_h) / spec_unit_ppm()
    }
}

/// The pixel-space word one observation makes.
pub open spec fn spec_vision_word(o: VisionObservationView, img_w: int, img_h: int) -> OcrWordView {
    OcrWordView {
        text: o.text,
        x: spec_px_of_ppm(o.x_ppm, img_w),
        y: spec_top_px(o.y_ppm, o.height_ppm, img_h),
        width: spec_px_of_ppm(o.width_ppm, img_w),
        height: spec_px_of_ppm(o.height_ppm, img_h),
    }
}

/// The line one observation makes: exactly one word whose geometry the
/// line mirrors, and no gaps.
pub open spec fn spec_vision_line(o: VisionObservationView, img_w: int, img_h: int) -> OcrLineView {
    let word = spec_vision_word(o, img_w, img_h);
    OcrLineView {
        text: o.text,
        x: word.x,
        y: word.y,
        width: word.width,
        height: word.height,
        words: seq![word],
        word_gaps: Seq::empty(),
    }
}

/// Convert one normalized box to pixel space: horizontal measures scale
/// by the image width, vertical ones by the image height, and the top
/// edge flips from the bottom-left-origin convention, floored at zero.
pub fn convert_vision_box(
    x_ppm: u32,
    y_ppm: u32,
    width_ppm: u32,
    height_ppm: u32,
    img_w: u32,
    img_h: u32,
) -> (b: (i64, i64, i64, i64))
    requires
        x_ppm <= 1_000_000,
        y_ppm <= 1_000_000,
        width_ppm <= 1_000_000,
        height_ppm <= 1_000_000,
    ensures
        b.0 == spec_px_of_ppm(x_ppm as int, img_w as int),
        b.1 == spec_top_px(y_ppm as int, height_ppm as int, img_h as int),
        b.2 == spec_px_of_ppm(width_ppm as int, img_w as int),
        b.3 == spec_px_of_ppm(height_ppm as int, img_h as int),
        0 <= b.0 <= img_w,
        0 <= b.1 <= img_h,
        0 <= b.2 <= img_w,
        0 <= b.3 <= img_h,
{
    proof {
        assert(forall|a: u64, b: u64|
            a <= 1_000_000 && b <= u32::MAX ==> #[trigger] (a * b) <= 1_000_000u64 * (
            u32::MAX as u64)) by (nonlinear_arith);
        assert(forall|a: int, b: int|
            0 <= a <= 1_000_000 && 0 <= b ==> #[trigger] ((a * b) / 1_000_000) <= b)
            by (nonlinear_arith);
    }
    let x: u64 = (x_ppm as u64) * (img_w as u64) / 1_000_000;
    let width: u64 = (width_ppm as u64) * (img_w as u64) / 1_000_000;
    let height: u64 = (height_ppm as u64) * (img_h as u64) / 1_000_000;
    let t: i64 = 1_000_000i64 - (y_ppm as i64) - (height_ppm as i64);
    let y: u64 = if t <= 0 {
        0
    } else {
        ((t as u64) * (img_h as u64)) / 1_000_000
    };
    (x as i64, y as i64, width as i64, height as i64)
}

/// The lines the kept observations make, in arrival order; an observation
/// whose text is empty after trimming is discarded.
pub open spec fn spec_kept_lines(obs: Seq<VisionObservationView>, img_w: int, img_h: int) -> Seq<
    OcrLineView,
>
    decreases obs.len(),
{
    if obs.len() == 0 {
        Seq::empty()
    } else {
        let rest = spec_kept_lines(obs.drop_last(), img_w, img_h);
        if spec_trimmed(obs.last().text).len() == 0 {
            rest
        } else {
            rest.push(spec_vision_line(obs.last(), img_w, img_h))
        }
    }
}

/// Spatial line order: ascending top edge, then ascending left edge.
pub open spec fn spec_line_le_spatial(a: OcrLineView, b: OcrLineView) -> bool {
    a.y < b.y || (a.y == b.y && a.x <= b.x)
}

/// `l` inserted behind the last line that is not below or right of it —
/// the stable insertion step of the spatial sort.
pub open spec fn spec_insert_line(l: OcrLineView, s: Seq<OcrLineView>) -> Seq<OcrLineView>
    decreases s.len(),
{
    if s.len() == 0 {
        seq![l]
    } else if spec_line_le_spatial(s.last(), l) {
        s.push(l)
    } else {
        spec_insert_line(l, s.drop_last()).push(s.last())
    }
}

/// Stable insertion sort by the spatial order: ties keep arrival order.
pub open spec fn spec_sort_lines(s: Seq<OcrLineView>) -> Seq<OcrLineView>
    decreases s.len(),
{
    if s.len() == 0 {
        s
    } else {
        spec_insert_line(s.last(), spec_sort_lines(s.drop_last()))
    }
}

/// The whole vision-path reconstruction: observations filtered, converted
/// to pixel-space one-word lines, spatially sorted, and joined.
pub open spec fn spec_vision_result(
    obs: Seq<VisionObservationView>,
    img_w: int,
    img_h: int,
) -> OcrResultView {
    let lines = spec_sort_lines(spec_kept_lines(obs, img_w, img_h));
    OcrResultView {
        text: spec_join(lines.map_values(|l: OcrLineView| l.text), "\n"@),
        lines,
    }
}

fn line_le_spatial(a: &OcrLine, b: &OcrLine) -> (r: bool)
    ensures
        r == spec_line_le_spatial(a@, b@),
{
    a.y < b.y || (a.y == b.y && a.x <= b.x)
}

fn insert_line_sorted(out: &mut Vec<OcrLine>, l: OcrLine)
    ensures
        final(out)@.map_values(|t: OcrLine| t@) == spec_insert_line(
            l@,
            old(out)@.map_values(|t: OcrLine| t@),
        ),
    decreases old(out)@.len(),
{
    let ghost before = out@.map_values(|t: OcrLine| t@);
    if out.len() == 0 {
        out.push(l);
        proof {
            assert(out@.map_values(|t: OcrLine| t@) =~= seq![l@]);
        }
        return ;
    }
    let le = line_le_spatial(&out[out.len() - 1], &l);
    if le {
        out.push(l);
        proof {
            assert(out@.map_values(|t: OcrLine| t@) =~= before.push(l@));
            assert(before.last() == out@[out@.len() - 2]@);
        }
    } else {
        let last = match out.pop() {
            Some(x) => x,
            None => {
                proof {
                    assert(false);
                }
                return ;
            },
        };
        proof {
            assert(out@.map_values(|t: OcrLine| t@) =~= before.drop_last());
            assert(last@ == before.last());
        }
        insert_line_sorted(out, l);
        out.push(last);
        proof {
            assert(out@.map_values(|t: OcrLine| t@) =~= spec_insert_line(
                l@,
                before.drop_last(),
            ).push(before.last()));
        }
    }
}

/// Assemble the unified result of the vision path from the service's
/// observations on an image of the given extent.
pub fn assemble_vision_result(img_w: u32, img_h: u32, observations: Vec<VisionObservation>) -> (out:
    OcrResult)
    requires
        forall|k: int|
            0 <= k < observations@.len() ==> spec_obs_in_unit((#[trigger] observations@[k])@),
    ensures
        out@ == spec_vision_result(
            observations@.map_values(|o: VisionObservation| o@),
            img_w as int,
            img_h as int,
        ),
{
    let ghost all = observations@.map_values(|o: VisionObservation| o@);
    let mut rest = observations;
    let n = rest.len();
    proof {
        assert(all.len() == rest@.len());
        assert(rest@.map_values(|o: VisionObservation| o@) =~= all.subrange(0, all.len() as int));
        assert forall|k: int| 0 <= k < all.len() implies spec_obs_in_unit(#[trigger] all[k]) by {
            assert(all[k] == rest@[k]@);
        }
    }
    let mut kept: Vec<OcrLine> = Vec::new();
    let mut idx: usize = 0;
    while rest.len() > 0
        invariant
            all.len() <= usize::MAX,
            all.len() == idx + rest@.len(),
            rest@.map_values(|o: VisionObservation| o@) == all.subrange(
                idx as int,
                all.len() as int,
            ),
            forall|k: int| 0 <= k < all.len() ==> spec_obs_in_unit(#[trigger] all[k]),
            kept@.map_values(|l: OcrLine| l@) == spec_kept_lines(
                all.take(idx as int),
                img_w as int,
                img_h as int,
            ),
        decreases rest@.len(),
    {
        let ghost prev = rest@;
        let o = rest.remove(0);
        proof {
            assert(prev.map_values(|t: VisionObservation| t@)[0] == o@);
            assert(o@ == all[idx as int]);
            assert(rest@ =~= prev.subrange(1, prev.len() as int));
            assert(rest@.map_values(|t: VisionObservation| t@) =~= all.subrange(
                idx + 1,
                all.len() as int,
            )) by {
                let m = rest@.map_values(|t: VisionObservation| t@);
                let pm = prev.map_values(|t: VisionObservation| t@);
                assert forall|k: int| 0 <= k < m.len() implies m[k] == all[idx + 1 + k] by {
                    assert(rest@[k] == prev[k + 1]);
                    assert(m[k] == rest@[k]@);
                    assert(pm[k + 1] == prev[k + 1]@);
                    assert(pm[k + 1] == all.subrange(idx as int, all.len() as int)[k + 1]);
                }
            }
            assert(all.take(idx + 1).drop_last() =~= all.take(idx as int));
            assert(all.take(idx + 1).last() == all[idx as int]);
        }
        let tchars = chars_of(o.text.as_str());
        proof {
            assert(tchars@.subrange(0, tchars@.len() as int) =~= tchars@);
        }
        let (ta, tb) = trim_window(&tchars, 0, tchars.len());
        if ta < tb {
            let (x, y, width, height) = convert_vision_box(
                o.x_ppm,
                o.y_ppm,
                o.width_ppm,
                o.height_ppm,
                img_w,
                img_h,
            );
            let word = OcrWord { text: o.text.clone(), x, y, width, height };
            let words = vec![word];
            let line = OcrLine {
                text: o.text,
                x,
                y,
                width,
                height,
                words,
                word_gaps: Vec::new(),
            };
            proof {
                assert(line@.words =~= seq![spec_vision_word(all[idx as int], img_w as int, img_h as int)]);
                assert(line@.word_gaps =~= Seq::<int>::empty());
                assert(line@ == spec_vision_line(all[idx as int], img_w as int, img_h as int));
            }
            kept.push(line);
            proof {
                assert(kept@.map_values(|l: OcrLine| l@) =~= spec_kept_lines(
                    all.take(idx + 1),
                    img_w as int,
                    img_h as int,
                ));
            }
        }
        idx = idx + 1;
    }
    proof {
        assert(all.take(all.len() as int) =~= all);
    }
    let ghost kept_views = kept@.map_values(|l: OcrLine| l@);
    let mut krest = kept;
    proof {
        assert(krest@.map_values(|l: OcrLine| l@) =~= kept_views.subrange(
            0,
            kept_views.len() as int,
        ));
    }
    let kn = krest.len();
    let mut sorted: Vec<OcrLine> = Vec::new();
    let mut j: usize = 0;
    while krest.len() > 0
        invariant
            kept_views.len() <= usize::MAX,
            kept_views.len() == j + krest@.len(),
            krest@.map_values(|l: OcrLine| l@) == kept_views.subrange(
                j as int,
                kept_views.len() as int,
            ),
            sorted@.map_values(|l: OcrLine| l@) == spec_sort_lines(kept_views.take(j as int)),
        decreases krest@.len(),
    {
        let ghost prev = krest@;
        let l = krest.remove(0);
        proof {
            assert(prev.map_values(|t: OcrLine| t@)[0] == l@);
            assert(l@ == kept_views[j as int]);
            assert(krest@ =~= prev.subrange(1, prev.len() as int));
            assert(krest@.map_values(|t: OcrLine| t@) =~= kept_views.subrange(
                j + 1,
                kept_views.len() as int,
            )) by {
                let m = krest@.map_values(|t: OcrLine| t@);
                let pm = prev.map_values(|t: OcrLine| t@);
                assert forall|k: int| 0 <= k < m.len() implies m[k] == kept_views[j + 1 + k] by {
                    assert(krest@[k] == prev[k + 1]);
                    assert(m[k] == krest@[k]@);
                    assert(pm[k + 1] == prev[k + 1]@);
                    assert(pm[k + 1] == kept_views.subrange(j as int, kept_views.len() as int)[k
                        + 1]);
                }
            }
            assert(kept_views.take(j + 1).drop_last() =~= kept_views.take(j as int));
            assert(kept_views.take(j + 1).last() == kept_views[j as int]);
        }
        insert_line_sorted(&mut sorted, l);
        j = j + 1;
    }
    proof {
        assert(kept_views.take(kept_views.len() as int) =~= kept_views);
    }
    let result = build_result_from_lines(sorted);
    proof {
        assert(result@ == spec_vision_result(all, img_w as int, img_h as int));
    }
    result
}

/// What the image decoder finds in the bytes: the decoded extent, a
/// function of the bytes alone.
pub uninterp spec fn image_dims_of(bytes: Seq<u8>) -> Option<(u32, u32)>;

/// Relies on image::load_from_memory: decode the raster bytes and read
/// the image's extent. The outcome depends on the bytes alone; its name
/// is `image_dims_of`.
#[verifier::external_body]
fn decode_image_dims(bytes: &Vec<u8>) -> (dims: Option<(u32, u32)>)
    ensures
        dims == image_dims_of(bytes@),
{
    match image::load_from_memory(bytes.as_slice()) {
        Ok(img) => Some((img.width(), img.height())),
        Err(_) => None,
    }
}

/// What the pipeline does with decoded dimensions, whatever they are: a
/// failed decode or a zero extent is rejected.
pub fn validate_image_dims(dims: Option<(u32, u32)>) -> (out: Result<(u32, u32), Error>)
    ensures
        out is Ok <==> (dims is Some && dims->Some_0.0 > 0 && dims->Some_0.1 > 0),
        out is Ok ==> out->Ok_0 == dims->Some_0,
        out is Err ==> out->Err_0 is EncodingInvariantViolation,
{
    match dims {
        Some((w, h)) => {
            if w > 0 && h > 0 {
                Ok((w, h))
            } else {
                Err(Error::EncodingInvariantViolation)
            }
        },
        None => Err(Error::EncodingInvariantViolation),
    }
}

/// Decode an in-memory image far enough to learn its extent, rejecting
/// bytes that do not decode or decode to a zero extent.
pub fn vision_image_dimensions(image_data: &Vec<u8>) -> (out: Result<(u32, u32), Error>)
    ensures
        out is Ok <==> (image_dims_of(image_data@) is Some && image_dims_of(
            image_data@,
        )->Some_0.0 > 0 && image_dims_of(image_data@)->Some_0.1 > 0),
        out is Ok ==> out->Ok_0 == image_dims_of(image_data@)->Some_0,
        out is Err ==> out->Err_0 is EncodingInvariantViolation,
{
    let dims = decode_image_dims(image_data);
    validate_image_dims(dims)
}

} // verus!
