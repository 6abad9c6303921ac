//! The capture pipeline: from raw per-display surfaces, as the platform
//! hands them over, to encoded per-display capture records. Acquiring the
//! surfaces (display enumeration, the native capture primitives, the
//! permission probe) is the caller's edge work; every decision made on the
//! acquired data happens here.

use vstd::prelude::*;
use crate::bmp::{encode_bmp, spec_bmp_bytes, spec_bmp_valid};
use crate::error::Error;
use crate::pixels::{
    repack_display_rows, rgba_to_bgra_opaque, spec_repack_valid, spec_repacked,
    spec_rgba_to_bgra_opaque,
};
use crate::scale::{resolve_scale_factor, round_scaled, spec_clamp_i32, spec_resolve_scale,
    spec_round_ratio, ScaleFactor};

verus! {

/// The channel order of a raw capture surface.
#[derive(Clone, Copy, PartialEq, Eq, Structural, Debug)]
pub enum PixelOrder {
    /// Tightly packed R,G,B,A, as the fallback capture path produces.
    Rgba,
    /// B,G,R,A with a row stride of `bytes_per_row`, as a bespoke platform
    /// capture primitive produces.
    Bgra,
}

/// One display's raw capture surface plus the geometry the platform
/// reported for it.
#[derive(Debug)]
pub struct RawDisplayCapture {
    /// Captured extent, in device pixels.
    pub width: u32,
    pub height: u32,
    /// Raw pixel bytes in `order`; for `Bgra` each row occupies
    /// `bytes_per_row` bytes, for `Rgba` the rows are tightly packed.
    pub pixels: Vec<u8>,
    pub order: PixelOrder,
    /// Row stride of a `Bgra` surface; ignored for `Rgba`.
    pub bytes_per_row: usize,
    /// Placement and extent in logical units, as the OS reported them.
    pub logical_x: i32,
    pub logical_y: i32,
    pub logical_width: u32,
    pub logical_height: u32,
    /// The scale factor the OS reported, if it reported one.
    pub reported_scale: Option<ScaleFactor>,
}

/// What happened when one display was queried and captured at the edge.
#[derive(Debug)]
pub enum DisplayQuery {
    /// Geometry and pixels both arrived.
    Captured(RawDisplayCapture),
    /// Reading the display's identity or geometry failed.
    QueryFailed { cause: String },
    /// Acquiring the display's pixels failed.
    CaptureFailed { cause: String },
}

/// One display's finished capture record: the encoded image and both
/// coordinate spaces, tied together by the resolved scale factor.
#[derive(Debug)]
pub struct MonitorScreenshotInfo {
    /// The display's pixels as one self-contained bitmap file.
    pub encoded_image: Vec<u8>,
    /// Placement derived from the logical placement and the scale factor.
    pub physical_x: i32,
    pub physical_y: i32,
    /// Extent in device pixels: exactly the captured extent.
    pub physical_width: u32,
    pub physical_height: u32,
    /// Placement and extent in logical units.
    pub logical_x: i32,
    pub logical_y: i32,
    pub logical_width: u32,
    pub logical_height: u32,
    pub scale_factor: ScaleFactor,
}

/// The mathematical content of a capture record.
pub ghost struct MonitorShotView {
    pub encoded_image: Seq<u8>,
    pub physical_x: int,
    pub physical_y: int,
    pub physical_width: int,
    pub physical_height: int,
    pub logical_x: int,
    pub logical_y: int,
    pub logical_width: int,
    pub logical_height: int,
    pub scale_factor: ScaleFactor,
}

impl View for MonitorScreenshotInfo {
    type V = MonitorShotView;

    open spec fn view(&self) -> MonitorShotView {
        MonitorShotView {
            encoded_image: self.encoded_image@,
            physical_x: self.physical_x as int,
            physical_y: self.physical_y as int,
            physical_width: self.physical_width as int,
            physical_height: self.physical_height as int,
            logical_x: self.logical_x as int,
            logical_y: self.logical_y as int,
            logical_width: self.logical_width as int,
            logical_height: self.logical_height as int,
            scale_factor: self.scale_factor,
        }
    }
}

/// The canonical B,G,R,A pixels of a raw surface, or nothing when a
/// stride-padded surface fails validation.
pub open spec fn spec_canonical_pixels(raw: RawDisplayCapture) -> Option<Seq<u8>> {
    match raw.order {
        PixelOrder::Rgba => Some(spec_rgba_to_bgra_opaque(raw.pixels@)),
        PixelOrder::Bgra => if spec_repack_valid(raw.width, raw.height, raw.bytes_per_row, raw.pixels@) {
            Some(spec_repacked(raw.width, raw.height, raw.bytes_per_row, raw.pixels@))
        } else {
            None
        },
    }
}

/// A logical extent is never allowed to be zero: a zero divisor would make
/// every derived ratio meaningless.
pub open spec fn spec_clamp_extent(v: u32) -> u32 {
    if v == 0 {
        1u32
    } else {
        v
    }
}

/// Whether one raw surface yields a capture record.
pub open spec fn spec_build_valid(raw: RawDisplayCapture) -> bool {
    &&& spec_canonical_pixels(raw) is Some
    &&& spec_bmp_valid(raw.width, raw.height, spec_canonical_pixels(raw)->Some_0)
}

/// The record a valid raw surface yields.
pub open spec fn spec_built_info(raw: RawDisplayCapture) -> MonitorShotView
    recommends
        spec_build_valid(raw),
{
    let lw = spec_clamp_extent(raw.logical_width);
    let lh = spec_clamp_extent(raw.logical_height);
    let scale = spec_resolve_scale(raw.reported_scale, raw.width, raw.height, lw, lh);
    MonitorShotView {
        encoded_image: spec_bmp_bytes(raw.width, raw.height, spec_canonical_pixels(raw)->Some_0),
        physical_x: spec_clamp_i32(
            spec_round_ratio(raw.logical_x as int, scale.num as int, scale.den as int),
        ),
        physical_y: spec_clamp_i32(
            spec_round_ratio(raw.logical_y as int, scale.num as int, scale.den as int),
        ),
        physical_width: raw.width as int,
        physical_height: raw.height as int,
        logical_x: raw.logical_x as int,
        logical_y: raw.logical_y as int,
        logical_width: lw as int,
        logical_height: lh as int,
        scale_factor: scale,
    }
}

/// Build one display's capture record: canonicalize the pixels, encode the
/// bitmap, resolve the scale factor, and derive the physical placement.
pub fn build_monitor_capture(raw: RawDisplayCapture) -> (out: Result<MonitorScreenshotInfo, Error>)
    ensures
        out is Ok <==> spec_build_valid(raw),
        out is Ok ==> out->Ok_0@ == spec_built_info(raw),
        out is Err ==> out->Err_0 is EncodingInvariantViolation,
{
    let canonical: Vec<u8> = match raw.order {
        PixelOrder::Rgba => rgba_to_bgra_opaque(&raw.pixels),
        PixelOrder::Bgra => {
            match repack_display_rows(raw.width, raw.height, raw.bytes_per_row, &raw.pixels) {
                Ok(v) => v,
                Err(e) => {
                    return Err(e);
                },
            }
        },
    };
    let encoded: Vec<u8> = match encode_bmp(raw.width, raw.height, &canonical) {
        Ok(v) => v,
        Err(e) => {
            return Err(e);
        },
    };
    let logical_width: u32 = if raw.logical_width == 0 {
        1
    } else {
        raw.logical_width
    };
    let logical_height: u32 = if raw.logical_height == 0 {
        1
    } else {
        raw.logical_height
    };
    let scale = resolve_scale_factor(
        raw.reported_scale,
        raw.width,
        raw.height,
        logical_width,
        logical_height,
    );
    let physical_x = round_scaled(raw.logical_x, &scale);
    let physical_y = round_scaled(raw.logical_y, &scale);
    Ok(
        MonitorScreenshotInfo {
            encoded_image: encoded,
            physical_x,
            physical_y,
            physical_width: raw.width,
            physical_height: raw.height,
            logical_x: raw.logical_x,
            logical_y: raw.logical_y,
            logical_width,
            logical_height,
            scale_factor: scale,
        },
    )
}

/// Whether one edge outcome contributes a record.
pub open spec fn spec_display_ok(d: DisplayQuery) -> bool {
    d is Captured && spec_build_valid(d->Captured_0)
}

/// The error a failing outcome produces, carrying the display's index.
pub open spec fn spec_capture_error(d: DisplayQuery, index: int) -> Error {
    match d {
        DisplayQuery::Captured(raw) => Error::EncodingInvariantViolation,
        DisplayQuery::QueryFailed { cause } => Error::DisplayQueryFailed {
            index: index as usize,
            cause,
        },
        DisplayQuery::CaptureFailed { cause } => Error::CaptureFailed {
            index: index as usize,
            cause,
        },
    }
}

/// Index of the first outcome that fails, or the length when none does.
pub open spec fn spec_first_bad(s: Seq<DisplayQuery>) -> int
    decreases s.len(),
{
    if s.len() == 0 {
        0
    } else if !spec_display_ok(s[0]) {
        0
    } else {
        1 + spec_first_bad(s.drop_first())
    }
}

proof fn lemma_first_bad_at(s: Seq<DisplayQuery>, i: int)
    requires
        0 <= i < s.len(),
        forall|k: int| 0 <= k < i ==> spec_display_ok(s[k]),
        !spec_display_ok(s[i]),
    ensures
        spec_first_bad(s) == i,
    decreases i,
{
    if i > 0 {
        assert(spec_display_ok(s[0]));
        assert(forall|k: int| 0 <= k < i - 1 ==> s.drop_first()[k] == s[k + 1]);
        lemma_first_bad_at(s.drop_first(), i - 1);
    }
}

/// The whole call's outcome: permission gate, empty-enumeration gate, then
/// either every display's record in enumeration order, or the first
/// failure, tagged with its display index.
pub open spec fn spec_capture_all(perm: bool, s: Seq<DisplayQuery>) -> Result<
    Seq<MonitorShotView>,
    Error,
> {
    if !perm {
        Err(Error::PermissionDenied)
    } else if s.len() == 0 {
        Err(Error::NoDisplaysFound)
    } else if exists|i: int| 0 <= i < s.len() && !spec_display_ok(s[i]) {
        let j = spec_first_bad(s);
        Err(spec_capture_error(s[j], j))
    } else {
        Ok(Seq::new(s.len(), |i: int| spec_built_info(s[i]->Captured_0)))
    }
}

/// Assemble the capture records of all displays, serially and in
/// enumeration order. Any failure aborts the whole call: no partial result
/// set is ever returned.
pub fn capture_all_monitors(has_permission: bool, displays: Vec<DisplayQuery>) -> (out: Result<
    Vec<MonitorScreenshotInfo>,
    Error,
>)
    ensures
        out is Ok <==> spec_capture_all(has_permission, displays@) is Ok,
        out is Ok ==> out->Ok_0@.map_values(|m: MonitorScreenshotInfo| m@) == spec_capture_all(
            has_permission,
            displays@,
        )->Ok_0,
        out is Err ==> out->Err_0 == spec_capture_all(has_permission, displays@)->Err_0,
{
    if !has_permission {
        return Err(Error::PermissionDenied);
    }
    if displays.len() == 0 {
        return Err(Error::NoDisplaysFound);
    }
    let ghost all = displays@;
    let mut rest = displays;
    let mut idx: usize = 0;
    let mut results: Vec<MonitorScreenshotInfo> = Vec::new();
    while rest.len() > 0
        invariant
            has_permission,
            all == displays@,
            all.len() > 0,
            all.len() <= usize::MAX,
            all.len() == idx + rest@.len(),
            rest@ == all.subrange(idx as int, all.len() as int),
            forall|k: int| 0 <= k < idx ==> spec_display_ok(#[trigger] all[k]),
            results@.len() == idx,
            forall|k: int| 0 <= k < idx ==> (#[trigger] results@[k])@ == spec_built_info(
                all[k]->Captured_0,
            ),
        decreases rest@.len(),
    {
        let d = rest.remove(0);
        proof {
            assert(d == all[idx as int]);
        }
        match d {
            DisplayQuery::Captured(raw) => {
                match build_monitor_capture(raw) {
                    Ok(info) => {
                        results.push(info);
                    },
                    Err(e) => {
                        proof {
                            assert(!spec_display_ok(all[idx as int]));
                            lemma_first_bad_at(all, idx as int);
                            assert(exists|i: int|
                                0 <= i < all.len() && !spec_display_ok(#[trigger] all[i]));
                        }
                        return Err(Error::EncodingInvariantViolation);
                    },
                }
            },
            DisplayQuery::QueryFailed { cause } => {
                proof {
                    assert(!spec_display_ok(all[idx as int]));
                    lemma_first_bad_at(all, idx as int);
                    assert(exists|i: int|
                        0 <= i < all.len() && !spec_display_ok(#[trigger] all[i]));
                }
                return Err(Error::DisplayQueryFailed { index: idx, cause });
            },
            DisplayQuery::CaptureFailed { cause } => {
                proof {
                    assert(!spec_display_ok(all[idx as int]));
                    lemma_first_bad_at(all, idx as int);
                    assert(exists|i: int|
                        0 <= i < all.len() && !spec_display_ok(#[trigger] all[i]));
                }
                return Err(Error::CaptureFailed { index: idx, cause });
            },
        }
        idx = idx + 1;
    }
    proof {
        assert(forall|i: int| 0 <= i < all.len() ==> spec_display_ok(#[trigger] all[i]));
        assert(results@.map_values(|m: MonitorScreenshotInfo| m@) =~= Seq::new(
            all.len(),
            |i: int| spec_built_info(all[i]->Captured_0),
        ));
    }
    Ok(results)
}

/// The permission gate: with the consent already granted the pipeline may
/// proceed; without it the call fails, and it is the caller's edge work to
/// have triggered the OS consent prompt as a side effect beforehand.
pub fn ensure_screen_capture_permission(has_permission: bool) -> (out: Result<(), Error>)
    ensures
        out is Ok <==> has_permission,
        out is Err ==> out->Err_0 is PermissionDenied,
{
    if has_permission {
        Ok(())
    } else {
        Err(Error::PermissionDenied)
    }
}

} // verus!
