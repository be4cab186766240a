use jianying_jiejin::media::{MediaFile, MediaKind};
use jianying_jiejin::script::{parse_script, Caption};
use jianying_jiejin::timeline::{
    plan_timeline, plan_within_limits, render_plan_markdown, CanvasPreset, ClipFigures,
    EditOptions, PlanError, Ratio,
};

fn clip(name: &str, duration_us: u64, width: u32, height: u32) -> MediaFile {
    MediaFile {
        path: name.to_string(),
        name: name.to_string(),
        kind: MediaKind::Video,
        duration_us,
        width,
        height,
    }
}

fn timed(text: &str, start_us: u64, end_us: u64) -> Caption {
    Caption {
        text: text.to_string(),
        start_us: Some(start_us),
        end_us: Some(end_us),
    }
}

#[test]
fn script_driven_timeline_matches_caption_count() {
    let visuals = vec![
        clip("a.mp4", 10_000_000, 1080, 1920),
        clip("b.mp4", 8_000_000, 1080, 1920),
    ];
    let captions = parse_script("第一句文案。第二句更长一点的口播。第三句收尾。");
    let plan = plan_timeline(&visuals, &captions, &EditOptions::default()).unwrap();
    assert_eq!(plan.clips.len(), 3);
    assert_eq!(plan.captions.len(), 3);
    assert!(plan.duration_us >= 3_600_000);
    assert_eq!(
        plan.clips
            .last()
            .map(|clip| clip.timeline_start_us + clip.duration_us),
        Some(plan.duration_us)
    );
}

#[test]
fn head_trim_shifts_source_start() {
    let visuals = vec![clip("a.mp4", 10_000_000, 1920, 1080)];
    let options = EditOptions {
        head_trim_us: 1_000_000,
        tail_trim_us: 1_000_000,
        canvas: CanvasPreset::Landscape,
        ..EditOptions::default()
    };
    let plan = plan_timeline(&visuals, &[], &options).unwrap();
    assert_eq!(plan.clips.len(), 1);
    assert_eq!(plan.clips[0].source_start_us, 1_000_000);
    assert_eq!(plan.clips[0].duration_us, 8_000_000);
}

#[test]
fn caption_lengths_follow_the_speaking_rate() {
    let visuals = vec![
        clip("a.mp4", 10_000_000, 1080, 1920),
        clip("b.mp4", 8_000_000, 1080, 1920),
    ];
    let captions = parse_script("第一句文案。第二句更长一点的口播。第三句收尾。");
    let plan = plan_timeline(&visuals, &captions, &EditOptions::default()).unwrap();
    let durations: Vec<u64> = plan.captions.iter().map(|c| c.duration_us).collect();
    assert_eq!(durations, vec![1_200_000, 1_833_333, 1_200_000]);
    assert_eq!(plan.duration_us, 4_233_333);
    let starts: Vec<u64> = plan.clips.iter().map(|c| c.timeline_start_us).collect();
    assert_eq!(starts, vec![0, 1_200_000, 3_033_333]);
    let media: Vec<usize> = plan.clips.iter().map(|c| c.media_index).collect();
    assert_eq!(media, vec![0, 1, 0]);
    assert_eq!(plan.clips[2].source_start_us, 1_200_000);
    assert_eq!(plan.clips[0].speed, Ratio { num: 1_200_000, den: 1_200_000 });
}

#[test]
fn short_material_is_slowed_down() {
    let visuals = vec![clip("a.mp4", 600_000, 1080, 1920)];
    let captions = vec![Caption {
        text: "一二三四五六".to_string(),
        start_us: None,
        end_us: None,
    }];
    let plan = plan_timeline(&visuals, &captions, &EditOptions::default()).unwrap();
    assert_eq!(plan.clips[0].duration_us, 1_200_000);
    assert_eq!(plan.clips[0].source_duration_us, 600_000);
    assert_eq!(plan.clips[0].speed, Ratio { num: 600_000, den: 1_200_000 });
}

#[test]
fn used_up_footage_plays_the_first_visual_again_from_its_start() {
    let visuals = vec![clip("a.mp4", 1_000_000, 1080, 1920)];
    let options = EditOptions {
        head_trim_us: 200_000,
        tail_trim_us: 0,
        ..EditOptions::default()
    };
    let captions = vec![timed("一", 0, 1_200_000), timed("二", 1_200_000, 2_400_000)];
    let plan = plan_timeline(&visuals, &captions, &options).unwrap();
    assert_eq!(plan.clips[0].source_start_us, 200_000);
    assert_eq!(plan.clips[0].source_duration_us, 800_000);
    assert_eq!(plan.clips[1].media_index, 0);
    assert_eq!(plan.clips[1].source_start_us, 200_000);
    assert_eq!(plan.clips[1].source_duration_us, 800_000);
    assert_eq!(plan.clips[1].speed, Ratio { num: 800_000, den: 1_200_000 });
}

#[test]
fn no_visuals_is_an_error() {
    let captions = parse_script("一句。");
    let err = plan_timeline(&[], &captions, &EditOptions::default()).unwrap_err();
    assert_eq!(err, PlanError::NoVisuals);
    assert_eq!(err.message(), "no video or image clips to place on the timeline");
    assert_eq!(PlanError::Empty.message(), "timeline would be empty");
}

#[test]
fn clips_only_follow_file_order() {
    let mut image = clip("c.png", 3_000_000, 1080, 1080);
    image.kind = MediaKind::Image;
    let visuals = vec![
        clip("a.mp4", 5_000_000, 1080, 1920),
        clip("b.mp4", 5_000_000, 1080, 1920),
        image,
    ];
    let options = EditOptions {
        head_trim_us: 1_000_000,
        ..EditOptions::default()
    };
    let plan = plan_timeline(&visuals, &[], &options).unwrap();
    let starts: Vec<u64> = plan.clips.iter().map(|c| c.timeline_start_us).collect();
    assert_eq!(starts, vec![0, 4_000_000, 8_000_000]);
    assert_eq!(plan.clips[2].source_start_us, 0);
    assert_eq!(plan.clips[2].duration_us, 3_000_000);
    assert_eq!(plan.duration_us, 11_000_000);
    assert!(plan.captions.is_empty());
    let media: Vec<usize> = plan.clips.iter().map(|c| c.media_index).collect();
    assert_eq!(media, vec![0, 1, 2]);
}

#[test]
fn srt_plan_keeps_timecodes() {
    let visuals = vec![clip("a.mp4", 20_000_000, 1080, 1920)];
    let captions = vec![timed("一", 1_000_000, 3_500_000), timed("二", 4_000_000, 6_000_000)];
    let plan = plan_timeline(&visuals, &captions, &EditOptions::default()).unwrap();
    assert_eq!(plan.captions[0].timeline_start_us, 1_000_000);
    assert_eq!(plan.captions[0].duration_us, 2_500_000);
    assert_eq!(plan.clips[1].timeline_start_us, 4_000_000);
    assert_eq!(plan.clips[1].duration_us, 2_000_000);
    assert_eq!(plan.duration_us, 6_000_000);
}

#[test]
fn cover_scale_and_mute() {
    let visuals = vec![clip("a.mp4", 5_000_000, 1920, 1080)];
    let options = EditOptions {
        mute_original: true,
        ..EditOptions::default()
    };
    let plan = plan_timeline(&visuals, &[], &options).unwrap();
    assert_eq!(plan.clips[0].volume, Ratio { num: 0, den: 1 });
    assert_eq!(plan.clips[0].scale, Ratio { num: 1920, den: 1080 });
    let flat = EditOptions {
        cover_fill: false,
        ..EditOptions::default()
    };
    let plan = plan_timeline(&visuals, &[], &flat).unwrap();
    assert_eq!(plan.clips[0].scale, Ratio { num: 1, den: 1 });
    assert_eq!(plan.clips[0].volume, Ratio { num: 1, den: 1 });
}

#[test]
fn canvas_presets() {
    assert_eq!(CanvasPreset::from_ratio(" 16:9 "), Some(CanvasPreset::Landscape));
    assert_eq!(CanvasPreset::from_ratio("portrait"), Some(CanvasPreset::Portrait));
    assert_eq!(CanvasPreset::from_ratio("square"), Some(CanvasPreset::Square));
    assert_eq!(CanvasPreset::from_ratio("4:3"), None);
    assert_eq!(CanvasPreset::Landscape.size(), (1920, 1080));
    assert_eq!(CanvasPreset::Portrait.size(), (1080, 1920));
    assert_eq!(CanvasPreset::Square.size(), (1080, 1080));
    assert_eq!(CanvasPreset::Portrait.label(), "9:16");
}

#[test]
fn limits_hold_for_ordinary_inputs() {
    let visuals = vec![clip("a.mp4", 10_000_000, 1080, 1920)];
    let captions = parse_script("一句。两句。");
    assert!(plan_within_limits(&visuals, &captions, &EditOptions::default()));
    let huge = vec![clip("a.mp4", u64::MAX, 1080, 1920), clip("b.mp4", u64::MAX, 1080, 1920)];
    assert!(!plan_within_limits(&huge, &[], &EditOptions::default()));
}

#[test]
fn plan_note_lists_clips_with_captions() {
    let visuals = vec![clip("/clips/a.mp4", 10_000_000, 1080, 1920)];
    let captions = parse_script("开场。收尾。");
    let plan = plan_timeline(&visuals, &captions, &EditOptions::default()).unwrap();
    let figures = vec![
        ClipFigures {
            start_s: "0.00".into(),
            duration_s: "1.20".into(),
            speed: "1.00".into(),
        },
        ClipFigures {
            start_s: "1.20".into(),
            duration_s: "1.20".into(),
            speed: "1.00".into(),
        },
    ];
    let md = render_plan_markdown(&plan, "成片", "2.40", &figures);
    assert!(md.starts_with("# 成片\n\n- 画布: 1080x1920 @ 30fps\n- 总时长: 2.40s\n- 视频片段: 2\n- 字幕: 2\n\n"));
    assert!(md.contains("| 0.00s | 1.20s | a.mp4 | 1.00x | 开场。 |\n"));
    assert!(md.ends_with("| 1.20s | 1.20s | a.mp4 | 1.00x | 收尾。 |\n"));
}
