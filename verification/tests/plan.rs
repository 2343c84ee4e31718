use gifplan::duration::Duration;
use gifplan::plan::{
    build_plan, output_gif_name, rational_to_text, ConversionPlan, ValidationError,
};
use gifplan::probe::{ProbeResult, Rational};

fn probe_1080p30() -> ProbeResult {
    ProbeResult {
        width: 1920,
        height: 1080,
        duration: Duration { h: 0, m: 0, s: 10 },
        fps: Rational { num: 30, den: 1 },
    }
}

#[test]
fn defaults_cover_whole_clip() {
    let plan = build_plan(&probe_1080p30(), None, None, None, None, None, None, false).unwrap();
    assert_eq!(plan.start, Duration { h: 0, m: 0, s: 0 });
    assert_eq!(plan.end, Duration { h: 0, m: 0, s: 10 });
    assert_eq!(plan.fps, Rational { num: 30, den: 1 });
    assert_eq!(plan.width, 1920);
    assert_eq!(plan.start_frame, 1);
    assert_eq!(plan.end_frame, 300);
}

#[test]
fn frame_count_floors_rational_rate() {
    let probe = ProbeResult {
        width: 100,
        height: 100,
        duration: Duration { h: 0, m: 0, s: 10 },
        fps: Rational { num: 30000, den: 1001 },
    };
    let plan = build_plan(&probe, None, None, None, None, None, None, false).unwrap();
    assert_eq!(plan.end_frame, 10 * 30000 / 1001);
}

#[test]
fn explicit_range_overrides_defaults() {
    let plan = build_plan(
        &probe_1080p30(),
        Some(Duration { h: 0, m: 0, s: 2 }),
        Some(Duration { h: 0, m: 0, s: 4 }),
        None,
        None,
        Some(10),
        Some(50),
        false,
    )
    .unwrap();
    assert_eq!(plan.start, Duration { h: 0, m: 0, s: 2 });
    assert_eq!(plan.end, Duration { h: 0, m: 0, s: 4 });
    assert_eq!(plan.start_frame, 10);
    assert_eq!(plan.end_frame, 50);
}

#[test]
fn overrides_ignored_unless_honored() {
    let fps = Rational { num: 60, den: 1 };
    let ignored = build_plan(&probe_1080p30(), None, None, Some(fps), Some(640), None, None, false)
        .unwrap();
    assert_eq!(ignored.fps, Rational { num: 30, den: 1 });
    assert_eq!(ignored.width, 1920);
    let honored = build_plan(&probe_1080p30(), None, None, Some(fps), Some(640), None, None, true)
        .unwrap();
    assert_eq!(honored.fps, Rational { num: 60, den: 1 });
    assert_eq!(honored.width, 640);
}

#[test]
fn start_after_end_rejected() {
    let r = build_plan(
        &probe_1080p30(),
        Some(Duration { h: 0, m: 0, s: 9 }),
        Some(Duration { h: 0, m: 0, s: 8 }),
        None,
        None,
        None,
        None,
        false,
    );
    assert_eq!(r, Err(ValidationError::StartAfterEnd));
}

#[test]
fn zero_frame_rate_rejected() {
    let mut probe = probe_1080p30();
    probe.fps = Rational { num: 0, den: 1 };
    assert_eq!(
        build_plan(&probe, None, None, None, None, None, None, false),
        Err(ValidationError::NonPositiveFrameRate)
    );
    probe.fps = Rational { num: 30, den: 0 };
    assert_eq!(
        build_plan(&probe, None, None, None, None, None, None, false),
        Err(ValidationError::NonPositiveFrameRate)
    );
}

#[test]
fn zero_width_rejected() {
    let mut probe = probe_1080p30();
    probe.width = 0;
    assert_eq!(
        build_plan(&probe, None, None, None, None, None, None, false),
        Err(ValidationError::ZeroWidth)
    );
}

#[test]
fn reversed_frame_range_rejected() {
    let r = build_plan(&probe_1080p30(), None, None, None, None, Some(200), Some(100), false);
    assert_eq!(r, Err(ValidationError::FrameRangeReversed));
}

#[test]
fn oversized_default_frame_count_rejected() {
    let probe = ProbeResult {
        width: 1,
        height: 1,
        duration: Duration { h: u32::MAX, m: 0, s: 0 },
        fps: Rational { num: u32::MAX, den: 1 },
    };
    assert_eq!(
        build_plan(&probe, None, None, None, None, None, None, false),
        Err(ValidationError::FrameCountTooLarge)
    );
}

#[test]
fn frame_rate_text_forms() {
    assert_eq!(rational_to_text(&Rational { num: 30, den: 1 }), "30");
    assert_eq!(rational_to_text(&Rational { num: 30000, den: 1001 }), "30000/1001");
}

#[test]
fn output_named_before_first_dot() {
    assert_eq!(output_gif_name("video.mp4"), "video.gif");
    assert_eq!(output_gif_name("archive.tar.gz"), "archive.gif");
    assert_eq!(output_gif_name("noext"), "noext.gif");
    assert_eq!(output_gif_name(".mp4"), ".gif");
}

#[test]
fn filter_graphs_exact() {
    let plan = ConversionPlan {
        start: Duration { h: 0, m: 0, s: 0 },
        end: Duration { h: 0, m: 0, s: 10 },
        fps: Rational { num: 30, den: 1 },
        width: 1920,
        start_frame: 1,
        end_frame: 300,
    };
    assert_eq!(plan.thumbnail_filter(), "fps=30,scale=600:-1:flags=lanczos");
    assert_eq!(
        plan.palette_filter(),
        "fps=30,trim=start_frame=1:end_frame=300,setpts=PTS-STARTPTS,scale=1920:-1:flags=lanczos,palettegen=stats_mode=diff"
    );
    assert_eq!(
        plan.encode_filter(),
        "fps=30,trim=start_frame=1:end_frame=300,setpts=PTS-STARTPTS,scale=1920:-1:flags=lanczos[x];[x][1:v]paletteuse=dither=bayer:bayer_scale=3"
    );
}
