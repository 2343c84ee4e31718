use gifplan::duration::Duration;
use gifplan::probe::{
    analyze, parse_duration_secs, parse_frame_rate, ProbeData, ProbeError, ProbeResult,
    ProbeStream, Rational,
};

fn video_stream(width: u32, height: u32, rate: &str) -> ProbeStream {
    ProbeStream {
        width: Some(width),
        height: Some(height),
        codec_type: "video".to_string(),
        r_frame_rate: rate.to_string(),
    }
}

fn audio_stream() -> ProbeStream {
    ProbeStream {
        width: None,
        height: None,
        codec_type: "audio".to_string(),
        r_frame_rate: "0/0".to_string(),
    }
}

#[test]
fn analyze_happy_path() {
    let data = ProbeData {
        streams: vec![video_stream(1920, 1080, "30/1")],
        duration: "10.000000".to_string(),
    };
    assert_eq!(
        analyze(&data),
        Ok(ProbeResult {
            width: 1920,
            height: 1080,
            duration: Duration { h: 0, m: 0, s: 10 },
            fps: Rational { num: 30, den: 1 },
        })
    );
}

#[test]
fn analyze_no_video_stream() {
    let data = ProbeData {
        streams: vec![audio_stream()],
        duration: "10.000000".to_string(),
    };
    assert_eq!(analyze(&data), Err(ProbeError::NoVideoStream));
}

#[test]
fn analyze_empty_stream_list() {
    let data = ProbeData { streams: vec![], duration: "10.0".to_string() };
    assert_eq!(analyze(&data), Err(ProbeError::NoVideoStream));
}

#[test]
fn analyze_picks_first_video_stream() {
    let data = ProbeData {
        streams: vec![audio_stream(), video_stream(640, 480, "25/1"), video_stream(1920, 1080, "30/1")],
        duration: "5".to_string(),
    };
    assert_eq!(
        analyze(&data),
        Ok(ProbeResult {
            width: 640,
            height: 480,
            duration: Duration { h: 0, m: 0, s: 5 },
            fps: Rational { num: 25, den: 1 },
        })
    );
}

#[test]
fn analyze_missing_width() {
    let mut st = video_stream(1, 1, "30/1");
    st.width = None;
    let data = ProbeData { streams: vec![st], duration: "1".to_string() };
    assert_eq!(analyze(&data), Err(ProbeError::MissingWidth));
}

#[test]
fn analyze_missing_height() {
    let mut st = video_stream(1, 1, "30/1");
    st.height = None;
    let data = ProbeData { streams: vec![st], duration: "1".to_string() };
    assert_eq!(analyze(&data), Err(ProbeError::MissingHeight));
}

#[test]
fn analyze_bad_duration() {
    let data = ProbeData {
        streams: vec![video_stream(1, 1, "30/1")],
        duration: "abc".to_string(),
    };
    assert_eq!(analyze(&data), Err(ProbeError::BadDuration));
}

#[test]
fn analyze_bad_frame_rate() {
    let data = ProbeData {
        streams: vec![video_stream(1, 1, "30")],
        duration: "1".to_string(),
    };
    assert_eq!(analyze(&data), Err(ProbeError::BadFrameRate));
    let data = ProbeData {
        streams: vec![video_stream(1, 1, "30/1/2")],
        duration: "1".to_string(),
    };
    assert_eq!(analyze(&data), Err(ProbeError::BadFrameRate));
}

#[test]
fn duration_text_floors() {
    assert_eq!(parse_duration_secs("3661.9"), Some(3661));
    assert_eq!(parse_duration_secs("10.999999"), Some(10));
    assert_eq!(parse_duration_secs("7"), Some(7));
    assert_eq!(parse_duration_secs("7."), Some(7));
}

#[test]
fn duration_text_rejects_malformed() {
    assert_eq!(parse_duration_secs(""), None);
    assert_eq!(parse_duration_secs(".5"), None);
    assert_eq!(parse_duration_secs("1.2.3"), None);
    assert_eq!(parse_duration_secs("-1"), None);
    assert_eq!(parse_duration_secs("1e3"), None);
}

#[test]
fn duration_text_caps_at_u32_max() {
    assert_eq!(parse_duration_secs("99999999999"), Some(u32::MAX));
}

#[test]
fn frame_rate_two_part_ratio() {
    assert_eq!(parse_frame_rate("30000/1001"), Some(Rational { num: 30000, den: 1001 }));
    assert_eq!(parse_frame_rate("25/1"), Some(Rational { num: 25, den: 1 }));
    assert_eq!(parse_frame_rate("25"), None);
    assert_eq!(parse_frame_rate("a/b"), None);
    assert_eq!(parse_frame_rate("1/2/3"), None);
}
