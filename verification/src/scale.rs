//! Scale-factor resolution: the physical-pixels-per-logical-unit ratio of a
//! display, kept as an exact rational so that placement arithmetic is exact.

use vstd::prelude::*;

verus! {

/// Physical-pixels-per-logical-unit ratio of one display, as an exact
/// positive rational `num / den`.
#[derive(Clone, Copy, PartialEq, Eq, Structural, Debug)]
pub struct ScaleFactor {
    pub num: u64,
    pub den: u64,
}

impl ScaleFactor {
    /// A scale factor is usable only as a positive, finite ratio: a zero
    /// numerator would be a zero scale, a zero denominator no ratio at all.
    pub open spec fn spec_valid(self) -> bool {
        self.num > 0 && self.den > 0
    }

    pub fn valid(&self) -> (b: bool)
        ensures
            b == self.spec_valid(),
    {
        self.num > 0 && self.den > 0
    }

    /// The neutral ratio: one physical pixel per logical unit.
    pub fn one() -> (s: ScaleFactor)
        ensures
            s == (ScaleFactor { num: 1u64, den: 1u64 }),
    {
        ScaleFactor { num: 1, den: 1 }
    }
}

/// Numerator of the ratio derived from captured and logical extents: the
/// derived scale is the mean of `captured_w / logical_w` and
/// `captured_h / logical_h`, which as one fraction is
/// `(captured_w * logical_h + captured_h * logical_w) / (2 * logical_w * logical_h)`.
pub open spec fn spec_derived_num(captured_w: u32, captured_h: u32, logical_w: u32, logical_h: u32) -> int {
    captured_w * logical_h + captured_h * logical_w
}

/// Denominator of the derived ratio.
pub open spec fn spec_derived_den(logical_w: u32, logical_h: u32) -> int {
    2 * (logical_w * logical_h)
}

/// The resolved scale factor: a valid reported ratio is preferred; otherwise
/// the ratio derived from the extents, when it is positive and representable;
/// otherwise exactly one.
pub open spec fn spec_resolve_scale(
    reported: Option<ScaleFactor>,
    captured_w: u32,
    captured_h: u32,
    logical_w: u32,
    logical_h: u32,
) -> ScaleFactor {
    match reported {
        Some(r) if r.spec_valid() => r,
        _ => {
            let dn = spec_derived_num(captured_w, captured_h, logical_w, logical_h);
            let dd = spec_derived_den(logical_w, logical_h);
            if 0 < dn <= u64::MAX && 0 < dd <= u64::MAX {
                ScaleFactor { num: dn as u64, den: dd as u64 }
            } else {
                ScaleFactor { num: 1u64, den: 1u64 }
            }
        },
    }
}

/// Whatever is reported and whatever the extents are, the resolved scale
/// factor is a positive, finite ratio; when the derivation would yield a
/// non-positive or unrepresentable ratio, it is exactly one.
pub proof fn lemma_resolved_scale_valid(
    reported: Option<ScaleFactor>,
    captured_w: u32,
    captured_h: u32,
    logical_w: u32,
    logical_h: u32,
)
    ensures
        spec_resolve_scale(reported, captured_w, captured_h, logical_w, logical_h).spec_valid(),
        ({
            let dn = spec_derived_num(captured_w, captured_h, logical_w, logical_h);
            let dd = spec_derived_den(logical_w, logical_h);
            (match reported {
                Some(r) => !r.spec_valid(),
                None => true,
            }) && !(0 < dn <= u64::MAX && 0 < dd <= u64::MAX)
                ==> spec_resolve_scale(reported, captured_w, captured_h, logical_w, logical_h)
                    == (ScaleFactor { num: 1u64, den: 1u64 })
        }),
{
}

/// Resolve one display's scale factor from the ratio the platform reported
/// (if any) and the captured and logical extents.
pub fn resolve_scale_factor(
    reported: Option<ScaleFactor>,
    captured_w: u32,
    captured_h: u32,
    logical_w: u32,
    logical_h: u32,
) -> (s: ScaleFactor)
    ensures
        s == spec_resolve_scale(reported, captured_w, captured_h, logical_w, logical_h),
        s.spec_valid(),
{
    match reported {
        Some(r) => {
            if r.valid() {
                return r;
            }
            derive_scale_factor(captured_w, captured_h, logical_w, logical_h)
        },
        None => derive_scale_factor(captured_w, captured_h, logical_w, logical_h),
    }
}

/// The derivation alone: mean of the two extent ratios, or one when that
/// would be non-positive or out of range.
fn derive_scale_factor(captured_w: u32, captured_h: u32, logical_w: u32, logical_h: u32) -> (s: ScaleFactor)
    ensures
        s == spec_resolve_scale(None, captured_w, captured_h, logical_w, logical_h),
{
    proof {
        assert(forall|a: u128, b: u128|
            a <= u32::MAX && b <= u32::MAX ==> #[trigger] (a * b) <= (u32::MAX as u128) * (u32::MAX as u128))
            by (nonlinear_arith);
    }
    let p1: u128 = (captured_w as u128) * (logical_h as u128);
    let p2: u128 = (captured_h as u128) * (logical_w as u128);
    let dn: u128 = p1 + p2;
    let dd: u128 = 2u128 * ((logical_w as u128) * (logical_h as u128));
    if 0 < dn && dn <= u64::MAX as u128 && 0 < dd && dd <= u64::MAX as u128 {
        ScaleFactor { num: dn as u64, den: dd as u64 }
    } else {
        ScaleFactor { num: 1, den: 1 }
    }
}

/// Exact rounding of `l * num / den` to the nearest integer, halves away
/// from zero, as the floating-point `round` does.
pub open spec fn spec_round_ratio(l: int, num: int, den: int) -> int
    recommends
        den > 0,
{
    let m = if l >= 0 { l } else { -l };
    let q = (2 * (m * num) + den) / (2 * den);
    if l >= 0 {
        q
    } else {
        -q
    }
}

pub open spec fn spec_clamp_i32(v: int) -> int {
    if v < i32::MIN {
        i32::MIN as int
    } else if v > i32::MAX {
        i32::MAX as int
    } else {
        v
    }
}

/// Physical placement of a logical coordinate: the coordinate times the
/// scale factor, rounded half away from zero and clamped to the `i32` range.
pub fn round_scaled(l: i32, s: &ScaleFactor) -> (r: i32)
    requires
        s.spec_valid(),
    ensures
        r as int == spec_clamp_i32(spec_round_ratio(l as int, s.num as int, s.den as int)),
{
    let m: u64 = if l >= 0 {
        l as u64
    } else {
        (-(l as i64)) as u64
    };
    proof {
        assert(forall|a: u128, b: u128|
            a <= 0x1_0000_0000u128 && b <= u64::MAX ==> #[trigger] (a * b) <= 0x1_0000_0000u128 * (
            u64::MAX as u128)) by (nonlinear_arith);
    }
    let prod: u128 = (m as u128) * (s.num as u128);
    let a: u128 = 2u128 * prod + (s.den as u128);
    let d: u128 = 2u128 * (s.den as u128);
    let q: u128 = a / d;
    if l >= 0 {
        if q > i32::MAX as u128 {
            i32::MAX
        } else {
            q as i32
        }
    } else {
        if q >= 2147483648u128 {
            i32::MIN
        } else {
            -(q as i32)
        }
    }
}

} // verus!
