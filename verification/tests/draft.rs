use jianying_jiejin::draft::{
    build_draft_content, build_meta_info, micros_to_us, now_us, rewrite_path, DraftRequest,
};
use jianying_jiejin::id::{hex_id, upper_guid};
use jianying_jiejin::json::{parse_json_bytes, JsonNumber, JsonValue};
use jianying_jiejin::media::{
    collect_audios, collect_visuals, extension_kind, frame_size, probe_file, probe_file_or_assume,
    probe_report, MediaError, MediaKind, StreamInfo,
};
use jianying_jiejin::project::{draft_files, install_target, join, load_visuals, BuildError};
use jianying_jiejin::script::parse_script;
use jianying_jiejin::timeline::{plan_timeline, EditOptions};

fn field<'a>(v: &'a JsonValue, key: &str) -> &'a JsonValue {
    v.get(key).unwrap()
}

#[test]
fn draft_content_describes_the_plan() {
    let paths = vec!["/tmp/work/clips/shot01.mp4".to_string()];
    let visuals = load_visuals(&paths, &[None], Some(6_000_000), 3_000_000).unwrap();
    assert_eq!(visuals[0].duration_us, 6_000_000);
    assert_eq!((visuals[0].width, visuals[0].height), (1080, 1920));
    let captions = parse_script("开场介绍产品。然后展示细节。最后号召下单。");
    let plan = plan_timeline(&visuals, &captions, &EditOptions::default()).unwrap();
    assert_eq!(plan.captions.len(), 3);
    let request = DraftRequest {
        name: "测试成片",
        plan: &plan,
        visuals: &visuals,
        output_dir: "/tmp/work/draft",
        rewrite_from: Some("/tmp/work"),
        rewrite_to: Some("D:/clips"),
    };
    let content = build_draft_content(&request);
    assert_eq!(field(field(&content, "canvas_config"), "width").as_u64(), Some(1080));
    assert_eq!(field(&content, "tracks").as_array().unwrap().len(), 2);
    let videos = field(field(&content, "materials"), "videos").as_array().unwrap();
    assert_eq!(videos.len(), 1);
    let path = field(&videos[0], "path").as_str().unwrap();
    assert!(path.starts_with("D:/clips"), "{path}");
    assert_eq!(path, "D:/clips/clips/shot01.mp4");
    assert_eq!(field(&content, "name").as_str(), Some("测试成片"));
    let tracks = field(&content, "tracks").as_array().unwrap();
    let segments = field(&tracks[0], "segments").as_array().unwrap();
    assert_eq!(segments.len(), 3);
    let second = &segments[1];
    assert_eq!(field(field(second, "target_timerange"), "start").as_u64(), Some(plan.clips[1].timeline_start_us));
    assert_eq!(field(field(second, "source_timerange"), "start").as_u64(), Some(plan.clips[1].source_start_us));
    assert_eq!(field(second, "material_id").as_str(), field(&videos[0], "id").as_str());
    assert_eq!(
        field(field(field(second, "clip"), "scale"), "x").as_number(),
        Some(JsonNumber::Frac(plan.clips[1].scale.num as i128, plan.clips[1].scale.den))
    );
    let texts = field(field(&content, "materials"), "texts").as_array().unwrap();
    let text_segments = field(&tracks[1], "segments").as_array().unwrap();
    assert_eq!(field(&text_segments[2], "material_id").as_str(), field(&texts[2], "id").as_str());
    assert!(field(&texts[0], "content").as_str().unwrap().contains("开场介绍产品。"));
    assert_eq!(field(&content, "duration").as_u64(), Some(plan.duration_us));
    let meta = build_meta_info(&request, plan.duration_us);
    assert_eq!(field(&meta, "draft_fold_path").as_str(), Some("D:/clips/draft"));
    assert_eq!(field(&meta, "draft_name").as_str(), Some("测试成片"));
    assert_eq!(field(&meta, "draft_materials").as_array().unwrap().len(), 7);
}

#[test]
fn draft_without_captions_has_one_track() {
    let paths = vec!["a.mp4".to_string()];
    let probes = vec![Some(StreamInfo {
        duration_us: 4_000_000,
        width: 1920,
        height: 1080,
    })];
    let visuals = load_visuals(&paths, &probes, None, 3_000_000).unwrap();
    let plan = plan_timeline(&visuals, &[], &EditOptions::default()).unwrap();
    let request = DraftRequest {
        name: "n",
        plan: &plan,
        visuals: &visuals,
        output_dir: "out",
        rewrite_from: None,
        rewrite_to: None,
    };
    let content = build_draft_content(&request);
    assert_eq!(field(&content, "tracks").as_array().unwrap().len(), 1);
    let videos = field(field(&content, "materials"), "videos").as_array().unwrap();
    assert_eq!(field(&videos[0], "path").as_str(), Some("a.mp4"));
}

#[test]
fn draft_files_and_install_target() {
    let files = draft_files("out/draft");
    assert_eq!(files.folder, "out/draft");
    assert_eq!(files.content_path, "out/draft/draft_content.json");
    assert_eq!(files.meta_path, "out/draft/draft_meta_info.json");
    assert_eq!(files.plan_path, "out/draft/timeline.md");
    assert_eq!(draft_files("out/").plan_path, "out/timeline.md");
    assert_eq!(draft_files("").meta_path, "draft_meta_info.json");
    assert_eq!(install_target("out/draft/", "/drafts"), "/drafts/draft");
    assert_eq!(install_target("..", "/drafts"), "/drafts/jianying-auto-draft");
    assert_eq!(join("a", "b"), "a/b");
}

#[test]
fn loading_stops_at_the_first_failure() {
    let paths = vec!["a.mp4".to_string(), "b.mov".to_string(), "c.doc".to_string()];
    let probes = vec![
        Some(StreamInfo {
            duration_us: 1,
            width: 1,
            height: 1,
        }),
        None,
        None,
    ];
    match load_visuals(&paths, &probes, None, 3_000_000) {
        Err(BuildError::Media(MediaError::Probe(m))) => assert_eq!(
            m,
            "ffprobe failed for b.mov — install ffmpeg/ffprobe, or pass --assume-seconds"
        ),
        other => panic!("unexpected {other:?}"),
    }
    match load_visuals(&paths, &probes, Some(2_000_000), 3_000_000) {
        Err(BuildError::Media(e)) => assert_eq!(e.message(), "unsupported media type: c.doc"),
        other => panic!("unexpected {other:?}"),
    }
}

#[test]
fn rewrite_paths_only_with_both_ends() {
    assert_eq!(rewrite_path("/a/b/a", Some("/a"), Some("X:")), "X:/bX:");
    assert_eq!(rewrite_path("/a/b", Some(""), Some("X:")), "/a/b");
    assert_eq!(rewrite_path("/a/b", Some("/a"), None), "/a/b");
    assert_eq!(rewrite_path("aaa", Some("aa"), Some("b")), "ba");
}

#[test]
fn media_kinds_by_extension() {
    assert_eq!(extension_kind("clips/a.MP4"), Some(MediaKind::Video));
    assert_eq!(extension_kind("b.jpeg"), Some(MediaKind::Image));
    assert_eq!(extension_kind("c.flac"), Some(MediaKind::Audio));
    assert_eq!(extension_kind("d.txt"), None);
    assert_eq!(extension_kind(".mp4"), None);
    assert_eq!(extension_kind("noext"), None);
    assert_eq!(MediaKind::Video.as_str(), "video");
}

#[test]
fn collecting_sorts_and_filters() {
    let entries: Vec<String> = ["b.mp4", "a.png", "c.mp3", "d.txt", "A.mov"]
        .iter()
        .map(|s| s.to_string())
        .collect();
    assert_eq!(collect_visuals(&entries), vec!["A.mov", "a.png", "b.mp4"]);
    assert_eq!(collect_audios(&entries), vec!["c.mp3"]);
}

#[test]
fn probing_results() {
    let image = probe_file("p.png", 3_000_000, None).unwrap();
    assert_eq!(image.duration_us, 3_000_000);
    assert_eq!((image.width, image.height), (1080, 1920));
    assert_eq!(image.name, "p.png");
    let sized = probe_file(
        "dir/p.png",
        3_000_000,
        Some(StreamInfo {
            duration_us: 0,
            width: 640,
            height: 480,
        }),
    )
    .unwrap();
    assert_eq!((sized.width, sized.height, sized.duration_us), (640, 480, 3_000_000));
    assert!(matches!(probe_file("x.mp4", 3_000_000, None), Err(MediaError::Probe(_))));
    let assumed = probe_file_or_assume("x.mp4", 3_000_000, None, Some(8_000_000)).unwrap();
    assert_eq!(assumed.duration_us, 8_000_000);
    assert_eq!(assumed.kind, MediaKind::Video);
    assert_eq!(
        MediaError::NotFound("missing".into()).message(),
        "media path not found: missing"
    );
}

fn object(entries: Vec<(&str, JsonValue)>) -> JsonValue {
    JsonValue::Object(entries.into_iter().map(|(k, v)| (k.to_string(), v)).collect())
}

#[test]
fn frame_size_from_probe_report() {
    let stream = |kind: &str, w: i128, h: i128| {
        object(vec![
            ("codec_type", JsonValue::Str(kind.to_string())),
            ("width", JsonValue::Number(JsonNumber::Int(w))),
            ("height", JsonValue::Number(JsonNumber::Int(h))),
        ])
    };
    let report = object(vec![(
        "streams",
        JsonValue::Array(vec![stream("audio", 1, 1), stream("video", 1280, 720), stream("video", 2, 2)]),
    )]);
    assert_eq!(frame_size(&report), (1280, 720));
    let no_video = object(vec![("streams", JsonValue::Array(vec![stream("audio", 1, 1)]))]);
    assert_eq!(frame_size(&no_video), (1080, 1920));
    let partial = object(vec![(
        "streams",
        JsonValue::Array(vec![object(vec![
            ("codec_type", JsonValue::Str("video".into())),
            ("width", JsonValue::Number(JsonNumber::Int(720))),
        ])]),
    )]);
    assert_eq!(frame_size(&partial), (720, 1920));
    assert_eq!(frame_size(&JsonValue::Null), (1080, 1920));
}

#[test]
fn ids_have_their_shapes() {
    let a = hex_id();
    let b = hex_id();
    assert_eq!(a.len(), 32);
    assert!(a.chars().all(|c| c.is_ascii_hexdigit() && !c.is_ascii_uppercase()));
    assert_ne!(a, b);
    let g = upper_guid();
    assert_eq!(g.len(), 36);
    for (i, c) in g.chars().enumerate() {
        if [8, 13, 18, 23].contains(&i) {
            assert_eq!(c, '-');
        } else {
            assert!(c.is_ascii_hexdigit() && !c.is_ascii_lowercase());
        }
    }
}

#[test]
fn clock_reads_microseconds() {
    assert!(now_us() > 1_700_000_000_000_000);
}

#[test]
fn draft_links_materials_per_segment() {
    let paths = vec!["a.png".to_string(), "b.mp4".to_string()];
    let probes = vec![
        None,
        Some(StreamInfo {
            duration_us: 4_000_000,
            width: 1920,
            height: 1080,
        }),
    ];
    let visuals = load_visuals(&paths, &probes, None, 3_000_000).unwrap();
    let captions = parse_script("一句。两句。");
    let plan = plan_timeline(&visuals, &captions, &EditOptions::default()).unwrap();
    let request = DraftRequest {
        name: "n",
        plan: &plan,
        visuals: &visuals,
        output_dir: "out",
        rewrite_from: None,
        rewrite_to: None,
    };
    let content = build_draft_content(&request);
    let materials = field(&content, "materials");
    let list = |name: &str| field(materials, name).as_array().unwrap();
    assert_eq!(list("canvases").len(), plan.clips.len());
    assert_eq!(list("sound_channel_mappings").len(), plan.clips.len());
    assert_eq!(list("vocal_separations").len(), plan.clips.len());
    let tracks = field(&content, "tracks").as_array().unwrap();
    let segments = field(&tracks[0], "segments").as_array().unwrap();
    for (i, seg) in segments.iter().enumerate() {
        let refs = field(seg, "extra_material_refs").as_array().unwrap();
        assert_eq!(refs.len(), 4);
        for (k, name) in ["speeds", "canvases", "sound_channel_mappings", "vocal_separations"]
            .iter()
            .enumerate()
        {
            assert_eq!(refs[k].as_str(), field(&list(name)[i], "id").as_str());
        }
    }
    assert_eq!(field(&list("texts")[0], "type").as_str(), Some("subtitle"));
    let meta = build_meta_info(&request, plan.duration_us);
    let groups = field(&meta, "draft_materials").as_array().unwrap();
    let values = field(&groups[0], "value").as_array().unwrap();
    assert_eq!(field(&values[0], "metetype").as_str(), Some("photo"));
    assert_eq!(field(&values[1], "metetype").as_str(), Some("video"));
    assert_eq!(field(&values[1], "duration").as_u64(), Some(4_000_000));
    assert_eq!(field(&values[0], "duration").as_u64(), Some(3_000_000));
}

#[test]
fn uuid_digits_mark_version_four() {
    let id = hex_id();
    assert_eq!(id.as_bytes()[12], b'4');
    assert!(b"89ab".contains(&id.as_bytes()[16]));
    let guid = upper_guid();
    assert_eq!(guid.as_bytes()[14], b'4');
    assert!(b"89AB".contains(&guid.as_bytes()[19]));
}

#[test]
fn microsecond_counts_saturate() {
    assert_eq!(micros_to_us(None), 0);
    assert_eq!(micros_to_us(Some(12)), 12);
    assert_eq!(micros_to_us(Some(u128::from(u64::MAX) + 5)), u64::MAX);
}

#[test]
fn probe_report_reads_ffprobe_json() {
    let out = br#"{"format":{"duration":"12.5"},"streams":[{"codec_type":"audio"},{"codec_type":"video","width":1280,"height":720}]}"#;
    let (duration, width, height) = probe_report(out).unwrap();
    assert_eq!(duration.as_str(), Some("12.5"));
    assert_eq!((width, height), (1280, 720));
    let numeric = br#"{"format":{"duration":3}}"#;
    let (duration, width, height) = probe_report(numeric).unwrap();
    assert_eq!(duration.as_number(), Some(JsonNumber::Int(3)));
    assert_eq!((width, height), (1080, 1920));
    assert!(probe_report(b"not json").is_none());
    let parsed = parse_json_bytes(br#"{"a":[1,2.5,"x",null,true]}"#).unwrap();
    let items = parsed.get("a").and_then(|v| v.as_array()).unwrap();
    assert_eq!(items[1].as_number(), Some(JsonNumber::Float(2.5f64.to_bits())));
}

#[test]
fn visuals_and_audio_split_the_listing() {
    let entries: Vec<String> = ["b.mp4", "a.png", "c.mp3", "d.txt", "e.wav"]
        .iter()
        .map(|s| s.to_string())
        .collect();
    let visuals = collect_visuals(&entries);
    let audios = collect_audios(&entries);
    assert!(visuals.iter().all(|v| !audios.contains(v)));
    assert_eq!(visuals.len() + audios.len(), 4);
}

#[test]
fn draft_lists_every_material_kind_and_places_subtitles_low() {
    let paths = vec!["a.mp4".to_string()];
    let probes = vec![Some(StreamInfo {
        duration_us: 4_000_000,
        width: 1080,
        height: 1920,
    })];
    let visuals = load_visuals(&paths, &probes, None, 3_000_000).unwrap();
    let captions = parse_script("第一句。第二句。");
    let plan = plan_timeline(&visuals, &captions, &EditOptions::default()).unwrap();
    let request = DraftRequest {
        name: "n",
        plan: &plan,
        visuals: &visuals,
        output_dir: "out",
        rewrite_from: None,
        rewrite_to: None,
    };
    let content = build_draft_content(&request);
    let materials = field(&content, "materials");
    match materials {
        JsonValue::Object(entries) => assert_eq!(entries.len(), 45),
        _ => panic!("materials is no object"),
    }
    for key in ["ai_translates", "audios", "material_animations", "stickers", "vocal_beautifys"] {
        assert_eq!(field(materials, key).as_array().unwrap().len(), 0, "{key}");
    }
    assert_eq!(field(materials, "speeds").as_array().unwrap().len(), plan.clips.len());
    let tracks = field(&content, "tracks").as_array().unwrap();
    let text_segments = field(&tracks[1], "segments").as_array().unwrap();
    for segment in text_segments {
        let transform = field(field(segment, "clip"), "transform");
        assert_eq!(field(transform, "x").as_number(), Some(JsonNumber::Frac(0, 1)));
        assert_eq!(field(transform, "y").as_number(), Some(JsonNumber::Frac(-8, 10)));
    }
    let video_transform = field(field(&field(&tracks[0], "segments").as_array().unwrap()[0], "clip"), "transform");
    assert_eq!(field(video_transform, "y").as_number(), Some(JsonNumber::Frac(0, 1)));
    assert_eq!(field(&content, "version").as_u64(), Some(360_000));
    assert_eq!(field(field(&content, "platform"), "app_version").as_str(), Some("5.9.0"));
    let meta = build_meta_info(&request, plan.duration_us);
    let kinds: Vec<u64> = field(&meta, "draft_materials")
        .as_array()
        .unwrap()
        .iter()
        .map(|g| field(g, "type").as_u64().unwrap())
        .collect();
    assert_eq!(kinds, vec![0, 1, 2, 3, 6, 7, 8]);
}
