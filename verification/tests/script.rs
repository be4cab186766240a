use jianying_jiejin::script::{character_weight, parse_script};

#[test]
fn split_chinese_script_into_captions() {
    let captions = parse_script("今天天气很好。我们去公园。\n\n记得带水。");
    assert_eq!(captions.len(), 3);
    assert_eq!(captions[0].text, "今天天气很好。");
    assert_eq!(captions[2].text, "记得带水。");
}

#[test]
fn parse_srt_timestamps() {
    let srt =
        "1\n00:00:01,000 --> 00:00:03,500\n你好世界\n\n2\n00:00:04,000 --> 00:00:06,000\n第二句\n";
    let captions = parse_script(srt);
    assert_eq!(captions.len(), 2);
    assert_eq!(captions[0].start_us, Some(1_000_000));
    assert_eq!(captions[0].end_us, Some(3_500_000));
    assert_eq!(captions[1].text, "第二句");
}

#[test]
fn empty_script_has_no_captions() {
    assert!(parse_script("").is_empty());
    assert!(parse_script(" \r\n\t ").is_empty());
}

#[test]
fn plain_captions_have_no_timing() {
    let captions = parse_script("第一句。第二句！");
    assert_eq!(captions.len(), 2);
    assert_eq!(captions[1].text, "第二句！");
    assert!(captions.iter().all(|c| c.start_us.is_none() && c.end_us.is_none()));
}

#[test]
fn long_sentences_wrap_at_twenty_two_characters() {
    let long: String = std::iter::repeat('字').take(50).collect();
    let captions = parse_script(&long);
    assert_eq!(captions.len(), 3);
    assert_eq!(captions[0].text.chars().count(), 22);
    assert_eq!(captions[1].text.chars().count(), 22);
    assert_eq!(captions[2].text.chars().count(), 6);
    for c in &captions {
        let n = c.text.chars().count();
        assert!(n >= 1 && n <= 22);
    }
}

#[test]
fn paragraph_lines_are_joined() {
    let captions = parse_script("第一行\n第二行。\r\n\r\n  下一段  ");
    assert_eq!(captions.len(), 2);
    assert_eq!(captions[0].text, "第一行第二行。");
    assert_eq!(captions[1].text, "下一段");
}

#[test]
fn srt_caption_text_is_trimmed_and_joined() {
    let srt = "1\r\n00:01:02.5 --> 00:01:04,250\r\n  上半句 \r\n下半句  \r\n\r\n";
    let captions = parse_script(srt);
    assert_eq!(captions.len(), 1);
    assert_eq!(captions[0].text, "上半句下半句");
    assert_eq!(captions[0].start_us, Some(62_005_000));
    assert_eq!(captions[0].end_us, Some(64_250_000));
}

#[test]
fn srt_text_without_timing_keeps_no_times() {
    let srt = "孤立的一行\n\n1\n00:00:00,000 --> 00:00:01,000\n有时间\n";
    let captions = parse_script(srt);
    assert_eq!(captions.len(), 2);
    assert_eq!(captions[0].text, "孤立的一行");
    assert_eq!(captions[0].start_us, None);
    assert_eq!(captions[1].start_us, Some(0));
    assert_eq!(captions[1].end_us, Some(1_000_000));
}

#[test]
fn character_weight_counts_non_space() {
    assert_eq!(character_weight("你好 世界"), 4);
    assert_eq!(character_weight("   "), 1);
    assert_eq!(character_weight(""), 1);
    assert_eq!(character_weight("a b\tc"), 3);
}
