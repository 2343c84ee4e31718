//! Analysis of probed media metadata: selecting the video stream, reading
//! its dimensions, and parsing the frame rate and the duration text.

use vstd::prelude::*;

use crate::duration::Duration;
use crate::text::{
    digits_val, find_sep, first_sep, is_digit, is_u32_text, parse_u32, scan_digits, split_parts,
    split_sep,
};

verus! {

/// An exact frame rate as a ratio of whole numbers.
#[derive(Clone, Copy, PartialEq, Eq, Structural, Debug)]
pub struct Rational {
    pub num: u32,
    pub den: u32,
}

/// One stream descriptor from the metadata probe, reduced to plain values.
#[derive(Clone, PartialEq, Eq, Debug)]
pub struct ProbeStream {
    pub width: Option<u32>,
    pub height: Option<u32>,
    pub codec_type: String,
    pub r_frame_rate: String,
}

/// The whole probe answer: the stream list and the container's duration text.
#[derive(Clone, PartialEq, Eq, Debug)]
pub struct ProbeData {
    pub streams: Vec<ProbeStream>,
    pub duration: String,
}

/// The values the planner needs from the probe.
#[derive(Clone, Copy, PartialEq, Eq, Structural, Debug)]
pub struct ProbeResult {
    pub width: u32,
    pub height: u32,
    pub duration: Duration,
    pub fps: Rational,
}

/// Why probe output was rejected.
#[derive(Clone, Copy, PartialEq, Eq, Structural, Debug)]
pub enum ProbeError {
    /// No stream is tagged with the video codec type.
    NoVideoStream,
    /// The selected video stream carries no width.
    MissingWidth,
    /// The selected video stream carries no height.
    MissingHeight,
    /// The duration text is not an unsigned decimal number.
    BadDuration,
    /// The frame rate is not a two-part ratio of whole numbers.
    BadFrameRate,
}

/// Index of the first stream whose codec type reads `video`, or the stream
/// count when there is none.
pub open spec fn first_video(streams: Seq<ProbeStream>) -> int
    decreases streams.len(),
{
    if streams.len() == 0 {
        0
    } else if streams[0].codec_type@ == "video"@ {
        0
    } else {
        1 + first_video(streams.subrange(1, streams.len() as int))
    }
}

/// `first_video` is exactly the index before which no stream is video.
pub proof fn lemma_first_video_is(streams: Seq<ProbeStream>, i: int)
    requires
        0 <= i <= streams.len(),
        forall|j: int| 0 <= j < i ==> (#[trigger] streams[j]).codec_type@ != "video"@,
        i < streams.len() ==> streams[i].codec_type@ == "video"@,
    ensures
        first_video(streams) == i,
    decreases streams.len(),
{
    if streams.len() == 0 {
    } else if i == 0 {
    } else {
        assert(streams[0].codec_type@ != "video"@);
        let t = streams.subrange(1, streams.len() as int);
        assert forall|j: int| 0 <= j < i - 1 implies (#[trigger] t[j]).codec_type@ != "video"@ by {
            assert(t[j] == streams[j + 1]);
        }
        assert(i - 1 < t.len() ==> t[i - 1] == streams[i]);
        lemma_first_video_is(t, i - 1);
    }
}

/// Every character is a decimal digit.
pub open spec fn all_digits(s: Seq<char>) -> bool {
    forall|j: int| 0 <= j < s.len() ==> is_digit(#[trigger] s[j])
}

/// Floor of the probe's decimal seconds text, capped at `u32::MAX`; `None`
/// unless the text is digits optionally followed by a point and digits.
pub open spec fn duration_secs_spec(s: Seq<char>) -> Option<u32> {
    let dot = first_sep(s, '.');
    let ip = s.subrange(0, dot);
    let fp = if dot == s.len() {
        Seq::<char>::empty()
    } else {
        s.subrange(dot + 1, s.len() as int)
    };
    if ip.len() > 0 && all_digits(ip) && all_digits(fp) {
        if digits_val(ip) > u32::MAX {
            Some(u32::MAX)
        } else {
            Some(digits_val(ip) as u32)
        }
    } else {
        None
    }
}

/// Parses the probe's duration text and floors it to whole seconds, capped
/// at `u32::MAX`.
pub fn parse_duration_secs(s: &str) -> (r: Option<u32>)
    ensures
        r == duration_secs_spec(s@),
{
    let n = s.unicode_len();
    let dot = find_sep(s, '.');
    proof {
        let ip = s@.subrange(0, dot as int);
        if all_digits(ip) {
            assert forall|j: int| 0 <= j < dot implies is_digit(#[trigger] s@[j]) by {
                assert(s@[j] == ip[j]);
            }
        }
        if forall|j: int| 0 <= j < dot ==> is_digit(#[trigger] s@[j]) {
            assert forall|j: int| 0 <= j < ip.len() implies is_digit(#[trigger] ip[j]) by {
                assert(ip[j] == s@[j]);
            }
        }
        if dot < n {
            let fp = s@.subrange(dot as int + 1, s@.len() as int);
            if all_digits(fp) {
                assert forall|j: int| dot + 1 <= j < n implies is_digit(#[trigger] s@[j]) by {
                    assert(s@[j] == fp[j - dot - 1]);
                }
            }
            if forall|j: int| dot + 1 <= j < n ==> is_digit(#[trigger] s@[j]) {
                assert forall|j: int| 0 <= j < fp.len() implies is_digit(#[trigger] fp[j]) by {
                    assert(fp[j] == s@[j + dot + 1]);
                }
            }
        }
    }
    if dot == 0 {
        return None;
    }
    let ipv = match scan_digits(s, 0, dot) {
        None => {
            return None;
        },
        Some(v) => v,
    };
    if dot < n {
        match scan_digits(s, dot + 1, n) {
            None => {
                return None;
            },
            Some(_) => {},
        }
    }
    if ipv > u32::MAX as u64 {
        Some(u32::MAX)
    } else {
        Some(ipv as u32)
    }
}

/// `num/den` with both parts unsigned integers; anything else is rejected.
pub open spec fn frame_rate_spec(s: Seq<char>) -> Option<Rational> {
    let parts = split_sep(s, '/');
    if parts.len() == 2 && is_u32_text(parts[0]) && is_u32_text(parts[1]) {
        Some(Rational { num: digits_val(parts[0]) as u32, den: digits_val(parts[1]) as u32 })
    } else {
        None
    }
}

/// Parses a frame rate written as an exact two-part ratio.
pub fn parse_frame_rate(s: &str) -> (r: Option<Rational>)
    ensures
        r == frame_rate_spec(s@),
{
    let parts = split_parts(s, '/');
    if parts.len() != 2 {
        return None;
    }
    let num = match parse_u32(parts[0].as_str()) {
        None => {
            return None;
        },
        Some(v) => v,
    };
    let den = match parse_u32(parts[1].as_str()) {
        None => {
            return None;
        },
        Some(v) => v,
    };
    Some(Rational { num, den })
}

/// Exactly what `analyze` returns: the first video stream is selected; a
/// missing stream, missing width or height, a malformed duration, or a
/// malformed frame rate each give their error, checked in that order.
pub open spec fn analyze_spec(streams: Seq<ProbeStream>, duration: Seq<char>) -> Result<
    ProbeResult,
    ProbeError,
> {
    let i = first_video(streams);
    if i == streams.len() {
        Err(ProbeError::NoVideoStream)
    } else {
        let st = streams[i];
        if st.width is None {
            Err(ProbeError::MissingWidth)
        } else if st.height is None {
            Err(ProbeError::MissingHeight)
        } else {
            match duration_secs_spec(duration) {
                None => Err(ProbeError::BadDuration),
                Some(secs) => match frame_rate_spec(st.r_frame_rate@) {
                    None => Err(ProbeError::BadFrameRate),
                    Some(fps) => Ok(
                        ProbeResult {
                            width: st.width->0,
                            height: st.height->0,
                            duration: Duration {
                                h: secs / 3600,
                                m: (secs % 3600) / 60,
                                s: secs % 60,
                            },
                            fps,
                        },
                    ),
                },
            }
        }
    }
}

/// Index of the first stream tagged as video, or the stream count when
/// there is none.
pub fn find_video(streams: &Vec<ProbeStream>) -> (r: usize)
    ensures
        r == first_video(streams@),
        r <= streams@.len(),
{
    let n = streams.len();
    let video = String::from_str("video");
    let mut i: usize = 0;
    while i < n
        invariant
            i <= n,
            n == streams@.len(),
            video@ == "video"@,
            forall|j: int| 0 <= j < i ==> (#[trigger] streams@[j]).codec_type@ != "video"@,
        decreases n - i,
    {
        if streams[i].codec_type == video {
            proof {
                lemma_first_video_is(streams@, i as int);
            }
            return i;
        }
        i = i + 1;
    }
    proof {
        lemma_first_video_is(streams@, n as int);
    }
    n
}

/// Reduces probe output to the values the planner needs, or says what is
/// wrong with it.
pub fn analyze(data: &ProbeData) -> (r: Result<ProbeResult, ProbeError>)
    ensures
        r == analyze_spec(data.streams@, data.duration@),
{
    let found = find_video(&data.streams);
    if found == data.streams.len() {
        return Err(ProbeError::NoVideoStream);
    }
    let st = &data.streams[found];
    let width = match st.width {
        None => {
            return Err(ProbeError::MissingWidth);
        },
        Some(w) => w,
    };
    let height = match st.height {
        None => {
            return Err(ProbeError::MissingHeight);
        },
        Some(h) => h,
    };
    let secs = match parse_duration_secs(data.duration.as_str()) {
        None => {
            return Err(ProbeError::BadDuration);
        },
        Some(v) => v,
    };
    let fps = match parse_frame_rate(st.r_frame_rate.as_str()) {
        None => {
            return Err(ProbeError::BadFrameRate);
        },
        Some(v) => v,
    };
    Ok(
        ProbeResult {
            width,
            height,
            duration: Duration::from_seconds(secs),
            fps,
        },
    )
}

} // verus!
