//! Derivation of the three encoder invocations from probed metadata and the
//! user's choices: defaults, validation, the frame count, the filter graphs
//! and the full argument lists.

use vstd::prelude::*;

use crate::duration::Duration;
use crate::probe::{ProbeResult, Rational};
use crate::text::{dec_rep, find_sep, first_sep, u64_to_dec};

verus! {

/// Why a derived plan was rejected before any external call.
#[derive(Clone, Copy, PartialEq, Eq, Structural, Debug)]
pub enum ValidationError {
    /// The frame rate has a zero numerator or denominator.
    NonPositiveFrameRate,
    /// The scale target width is zero.
    ZeroWidth,
    /// The start time lies after the end time.
    StartAfterEnd,
    /// The default frame count does not fit in 64 bits.
    FrameCountTooLarge,
    /// The start frame lies after the end frame.
    FrameRangeReversed,
}

/// Everything the three encoder calls need, fixed before the first one runs.
#[derive(Clone, Copy, PartialEq, Eq, Structural, Debug)]
pub struct ConversionPlan {
    pub start: Duration,
    pub end: Duration,
    pub fps: Rational,
    pub width: u32,
    pub start_frame: u64,
    pub end_frame: u64,
}

/// A frame rate's text: the plain numerator when the denominator is one,
/// else `num/den`.
pub open spec fn rational_text(f: Rational) -> Seq<char> {
    if f.den == 1 {
        dec_rep(f.num as nat)
    } else {
        dec_rep(f.num as nat) + seq!['/'] + dec_rep(f.den as nat)
    }
}

/// Renders a frame rate for a filter graph.
pub fn rational_to_text(f: &Rational) -> (r: String)
    ensures
        r@ == rational_text(*f),
{
    if f.den == 1 {
        u64_to_dec(f.num as u64)
    } else {
        let mut r = u64_to_dec(f.num as u64);
        r.append("/");
        let d = u64_to_dec(f.den as u64);
        r.append(d.as_str());
        proof {
            reveal_strlit("/");
            assert("/"@ =~= seq!['/']);
            assert(r@ =~= rational_text(*f));
        }
        r
    }
}

/// The frame span between two times at a rate, floored:
/// `(end - start) * num / den` in whole frames.
pub open spec fn frame_count_spec(start: Duration, end: Duration, fps: Rational) -> int {
    (end.to_seconds_spec() - start.to_seconds_spec()) * fps.num / (fps.den as int)
}

/// Exactly what `build_plan` returns. Defaults: start is zero, end is the
/// probed duration, the start frame is one, the end frame is the frame
/// count over the chosen span. Overrides for frame rate and width are
/// honoured only when asked; the probed values stand otherwise. The checks,
/// in order: a positive frame rate, a positive width, start not after end,
/// a default frame count that fits 64 bits, start frame not after end frame.
pub open spec fn build_plan_spec(
    probe: ProbeResult,
    start: Option<Duration>,
    end: Option<Duration>,
    fps_override: Option<Rational>,
    width_override: Option<u32>,
    start_frame: Option<u64>,
    end_frame: Option<u64>,
    honor_overrides: bool,
) -> Result<ConversionPlan, ValidationError> {
    let start_d = if start is Some {
        start->0
    } else {
        Duration { h: 0, m: 0, s: 0 }
    };
    let end_d = if end is Some {
        end->0
    } else {
        probe.duration
    };
    let fps = if honor_overrides && fps_override is Some {
        fps_override->0
    } else {
        probe.fps
    };
    let width = if honor_overrides && width_override is Some {
        width_override->0
    } else {
        probe.width
    };
    if fps.num == 0 || fps.den == 0 {
        Err(ValidationError::NonPositiveFrameRate)
    } else if width == 0 {
        Err(ValidationError::ZeroWidth)
    } else if start_d.to_seconds_spec() > end_d.to_seconds_spec() {
        Err(ValidationError::StartAfterEnd)
    } else {
        let fc = frame_count_spec(start_d, end_d, fps);
        if end_frame is None && fc > u64::MAX {
            Err(ValidationError::FrameCountTooLarge)
        } else {
            let ef = if end_frame is Some {
                end_frame->0 as int
            } else {
                fc
            };
            let sf = if start_frame is Some {
                start_frame->0 as int
            } else {
                1
            };
            if sf > ef {
                Err(ValidationError::FrameRangeReversed)
            } else {
                Ok(
                    ConversionPlan {
                        start: start_d,
                        end: end_d,
                        fps,
                        width,
                        start_frame: sf as u64,
                        end_frame: ef as u64,
                    },
                )
            }
        }
    }
}

/// Fills defaults, validates the plan, and fixes every value the three
/// encoder calls will use. `None` inputs take their defaults; the frame
/// rate and width overrides are used only when `honor_overrides` is set.
pub fn build_plan(
    probe: &ProbeResult,
    start: Option<Duration>,
    end: Option<Duration>,
    fps_override: Option<Rational>,
    width_override: Option<u32>,
    start_frame: Option<u64>,
    end_frame: Option<u64>,
    honor_overrides: bool,
) -> (r: Result<ConversionPlan, ValidationError>)
    ensures
        r == build_plan_spec(
            *probe,
            start,
            end,
            fps_override,
            width_override,
            start_frame,
            end_frame,
            honor_overrides,
        ),
{
    let start_d = match start {
        Some(d) => d,
        None => Duration { h: 0, m: 0, s: 0 },
    };
    let end_d = match end {
        Some(d) => d,
        None => probe.duration,
    };
    let fps = match fps_override {
        Some(f) if honor_overrides => f,
        _ => probe.fps,
    };
    let width = match width_override {
        Some(w) if honor_overrides => w,
        _ => probe.width,
    };
    if fps.num == 0 || fps.den == 0 {
        return Err(ValidationError::NonPositiveFrameRate);
    }
    if width == 0 {
        return Err(ValidationError::ZeroWidth);
    }
    let start_secs = start_d.to_seconds();
    let end_secs = end_d.to_seconds();
    if start_secs > end_secs {
        return Err(ValidationError::StartAfterEnd);
    }
    let diff = end_secs - start_secs;
    proof {
        assert((diff as int) * (fps.num as int) <= (u64::MAX as int) * (u32::MAX as int))
            by (nonlinear_arith)
            requires
                0 <= diff <= u64::MAX,
                0 <= fps.num <= u32::MAX,
        ;
    }
    let prod: u128 = (diff as u128) * (fps.num as u128);
    let fc: u128 = prod / (fps.den as u128);
    let ef: u64 = match end_frame {
        Some(v) => v,
        None => {
            if fc > u64::MAX as u128 {
                return Err(ValidationError::FrameCountTooLarge);
            }
            fc as u64
        },
    };
    let sf: u64 = match start_frame {
        Some(v) => v,
        None => 1,
    };
    if sf > ef {
        return Err(ValidationError::FrameRangeReversed);
    }
    Ok(ConversionPlan { start: start_d, end: end_d, fps, width, start_frame: sf, end_frame: ef })
}

impl ConversionPlan {
    /// The thumbnail pass's filter graph: resample, then scale to width 600.
    pub open spec fn thumbnail_filter_spec(self) -> Seq<char> {
        "fps="@ + rational_text(self.fps) + ",scale=600:-1:flags=lanczos"@
    }

    /// The palette pass's filter graph: resample, trim to the frame range,
    /// reset timestamps, scale, and generate a temporal-difference palette.
    pub open spec fn palette_filter_spec(self) -> Seq<char> {
        "fps="@ + rational_text(self.fps) + ",trim=start_frame="@ + dec_rep(self.start_frame as nat)
            + ":end_frame="@ + dec_rep(self.end_frame as nat) + ",setpts=PTS-STARTPTS,scale="@
            + dec_rep(self.width as nat) + ":-1:flags=lanczos,palettegen=stats_mode=diff"@
    }

    /// The encode pass's filter graph: the same trim and scale chain, then
    /// the palette applied with ordered dithering.
    pub open spec fn encode_filter_spec(self) -> Seq<char> {
        "fps="@ + rational_text(self.fps) + ",trim=start_frame="@ + dec_rep(self.start_frame as nat)
            + ":end_frame="@ + dec_rep(self.end_frame as nat) + ",setpts=PTS-STARTPTS,scale="@
            + dec_rep(self.width as nat)
            + ":-1:flags=lanczos[x];[x][1:v]paletteuse=dither=bayer:bayer_scale=3"@
    }

    pub fn thumbnail_filter(&self) -> (r: String)
        ensures
            r@ == self.thumbnail_filter_spec(),
    {
        let mut r = String::from_str("fps=");
        let f = rational_to_text(&self.fps);
        r.append(f.as_str());
        r.append(",scale=600:-1:flags=lanczos");
        proof {
            assert(r@ =~= self.thumbnail_filter_spec());
        }
        r
    }

    pub fn palette_filter(&self) -> (r: String)
        ensures
            r@ == self.palette_filter_spec(),
    {
        let mut r = self.trim_scale_prefix();
        r.append(":-1:flags=lanczos,palettegen=stats_mode=diff");
        proof {
            assert(r@ =~= self.palette_filter_spec());
        }
        r
    }

    pub fn encode_filter(&self) -> (r: String)
        ensures
            r@ == self.encode_filter_spec(),
    {
        let mut r = self.trim_scale_prefix();
        r.append(":-1:flags=lanczos[x];[x][1:v]paletteuse=dither=bayer:bayer_scale=3");
        proof {
            assert(r@ =~= self.encode_filter_spec());
        }
        r
    }

    /// The filter text shared by the palette and encode passes, up to the
    /// scale target width.
    fn trim_scale_prefix(&self) -> (r: String)
        ensures
            r@ == "fps="@ + rational_text(self.fps) + ",trim=start_frame="@ + dec_rep(
                self.start_frame as nat,
            ) + ":end_frame="@ + dec_rep(self.end_frame as nat) + ",setpts=PTS-STARTPTS,scale="@
                + dec_rep(self.width as nat),
    {
        let mut r = String::from_str("fps=");
        let f = rational_to_text(&self.fps);
        r.append(f.as_str());
        r.append(",trim=start_frame=");
        let sf = u64_to_dec(self.start_frame);
        r.append(sf.as_str());
        r.append(":end_frame=");
        let ef = u64_to_dec(self.end_frame);
        r.append(ef.as_str());
        r.append(",setpts=PTS-STARTPTS,scale=");
        let w = u64_to_dec(self.width as u64);
        r.append(w.as_str());
        proof {
            assert(r@ =~= "fps="@ + rational_text(self.fps) + ",trim=start_frame="@ + dec_rep(
                self.start_frame as nat,
            ) + ":end_frame="@ + dec_rep(self.end_frame as nat) + ",setpts=PTS-STARTPTS,scale="@
                + dec_rep(self.width as nat));
        }
        r
    }
}

/// The output file's name: the input's text before its first dot, then `.gif`.
pub open spec fn output_name_spec(input: Seq<char>) -> Seq<char> {
    input.subrange(0, first_sep(input, '.')) + ".gif"@
}

/// Names the output file next to the input.
pub fn output_gif_name(input: &str) -> (r: String)
    ensures
        r@ == output_name_spec(input@),
{
    let dot = find_sep(input, '.');
    let base = input.substring_char(0, dot);
    let mut r = base.to_owned();
    r.append(".gif");
    proof {
        assert(r@ =~= output_name_spec(input@));
    }
    r
}

} // verus!
