use jianying_jiejin::client::{
    holder_params, holders_from_response, window_on_page, window_params, window_start,
    FetchError, WindowStep,
};
use jianying_jiejin::date::Date;
use jianying_jiejin::json::{JsonNumber, JsonValue};
use jianying_jiejin::model::{parse_event, parse_holder, rank_sorted, urlencoding_minimal, UnlockEvent};
use jianying_jiejin::report::{
    format_date, render_markdown, report_paths, report_stem, CalendarLine, HolderFigures,
    RowFigures,
};
use jianying_jiejin::web::{
    build_config_on, day_json, defaults_payload, error_payload, fetch_payload_with_meta,
    holder_json, index_html, route, row_json, FetchRequest, HttpMethod, RequestError, Route,
};

fn text(s: &str) -> JsonValue {
    JsonValue::Str(s.to_string())
}

fn float(x: f64) -> JsonValue {
    JsonValue::Number(JsonNumber::Float(x.to_bits()))
}

fn integer(n: i128) -> JsonValue {
    JsonValue::Number(JsonNumber::Int(n))
}

fn object(entries: Vec<(&str, JsonValue)>) -> JsonValue {
    JsonValue::Object(entries.into_iter().map(|(k, v)| (k.to_string(), v)).collect())
}

fn sample_row() -> JsonValue {
    object(vec![
        ("SECURITY_CODE", text("300008")),
        ("SECURITY_NAME_ABBR", text("天海防务")),
        ("FREE_DATE", text("2026-09-20 00:00:00")),
        ("CURRENT_FREE_SHARES", float(6300.0)),
        ("ABLE_FREE_SHARES", float(6300.0)),
        ("LIFT_MARKET_CAP", float(41895.0)),
        ("FREE_RATIO", float(0.036_466_720_447)),
        ("NEW", float(6.65)),
        ("B20_ADJCHRATE", float(10.58)),
        ("A20_ADJCHRATE", float(-2.06)),
        ("FREE_SHARES_TYPE", text("定向增发机构配售股份")),
        ("TOTAL_RATIO", float(0.036)),
        ("NON_FREE_SHARES", float(42.6)),
        ("BATCH_HOLDER_NUM", integer(1)),
    ])
}

/// Pages through scripted replies the way the watcher pages through the
/// data center.
fn fetch_window(replies: Vec<JsonValue>) -> Result<Vec<UnlockEvent>, FetchError> {
    let mut replies = replies.into_iter();
    let mut state = window_start();
    loop {
        let body = replies
            .next()
            .ok_or_else(|| FetchError::Upstream("no scripted response".into()))?;
        match window_on_page(state, &body)? {
            WindowStep::Next(next) => state = next,
            WindowStep::Done(events) => return Ok(events),
        }
    }
}

#[test]
fn fetch_window_reads_scripted_pages() {
    let replies = vec![object(vec![
        ("success", JsonValue::Bool(true)),
        (
            "result",
            object(vec![
                ("pages", integer(1)),
                ("count", integer(1)),
                ("data", JsonValue::Array(vec![sample_row()])),
            ]),
        ),
    ])];
    let start = Date::new(2026, 9, 11).unwrap();
    let params = window_params(start, start.add_days(30), 1);
    assert!(params.contains(&(
        "filter".to_string(),
        "(FREE_DATE>='2026-09-11')(FREE_DATE<='2026-10-11')".to_string()
    )));
    let events = fetch_window(replies).unwrap();
    assert_eq!(events.len(), 1);
    assert_eq!(events[0].name, "天海防务");
}

#[test]
fn paging_follows_reported_pages() {
    let page = |n: usize| {
        object(vec![
            ("success", JsonValue::Bool(true)),
            (
                "result",
                object(vec![
                    ("pages", integer(2)),
                    ("data", JsonValue::Array((0..n).map(|_| sample_row()).collect())),
                ]),
            ),
        ])
    };
    let events = fetch_window(vec![page(2), page(1), page(5)]).unwrap();
    assert_eq!(events.len(), 3);
}

#[test]
fn failed_reply_is_an_upstream_error() {
    let body = object(vec![("success", JsonValue::Bool(false)), ("message", text("busy"))]);
    match fetch_window(vec![body]) {
        Err(FetchError::Upstream(m)) => assert_eq!(m, "busy"),
        _ => panic!("expected an upstream error"),
    }
    let body = object(vec![("success", JsonValue::Bool(true))]);
    match fetch_window(vec![body]) {
        Err(e) => assert_eq!(e.message(), "missing result"),
        _ => panic!("expected an upstream error"),
    }
    let body = object(vec![("success", integer(1))]);
    match fetch_window(vec![body]) {
        Err(e) => assert_eq!(e.message(), "eastmoney request failed"),
        _ => panic!("expected an upstream error"),
    }
}

#[test]
fn event_fields_and_links() {
    let event = parse_event(&sample_row()).unwrap();
    assert_eq!(event.code, "300008");
    assert_eq!(event.free_date, "2026-09-20 00:00:00");
    assert_eq!(event.lift_market_cap_wan, JsonNumber::Float(41895.0f64.to_bits()));
    assert_eq!(event.holder_count, Some(1));
    assert_eq!(event.free_date_parsed(), Date::new(2026, 9, 20));
    assert_eq!(event.days_ahead(Date::new(2026, 9, 11).unwrap()), Some(9));
    assert_eq!(event.unlock_url(), "https://data.eastmoney.com/dxf/q/300008.html");
    assert_eq!(event.notice_url(), "https://data.eastmoney.com/notices/stock/300008.html");
    assert_eq!(event.quote_url(), "https://quote.eastmoney.com/sz300008.html");
    assert_eq!(
        event.news_url(),
        "https://so.eastmoney.com/news/s?keyword=%E5%A4%A9%E6%B5%B7%E9%98%B2%E5%8A%A1%20%E8%A7%A3%E7%A6%81"
    );
    assert!(parse_event(&object(vec![("SECURITY_CODE", text("1"))])).is_none());
}

#[test]
fn quote_prefix_by_exchange() {
    let mut event = parse_event(&sample_row()).unwrap();
    event.code = "600000".into();
    assert_eq!(event.quote_url(), "https://quote.eastmoney.com/sh600000.html");
    event.code = "830001".into();
    assert_eq!(event.quote_url(), "https://quote.eastmoney.com/bj830001.html");
    assert_eq!(urlencoding_minimal("a-b_c.d e"), "a-b_c.d%20e");
}

#[test]
fn ranking_keeps_upcoming_large_events_in_order() {
    let today = Date::new(2026, 9, 11).unwrap();
    let mut past = parse_event(&sample_row()).unwrap();
    past.code = "000001".into();
    past.free_date = "2026-01-01".into();
    let mut small = parse_event(&sample_row()).unwrap();
    small.code = "600000".into();
    let large = parse_event(&sample_row()).unwrap();
    let mut undated = parse_event(&sample_row()).unwrap();
    undated.free_date = "later".into();
    let ranked = rank_sorted(vec![past, large, small, undated], &[true, true, false, true], today, 10);
    assert_eq!(ranked.len(), 1);
    assert_eq!(ranked[0].rank, 1);
    assert_eq!(ranked[0].event.code, "300008");
    assert_eq!(ranked[0].days_ahead, 9);
    assert!(ranked[0].holders.is_empty());
}

#[test]
fn ranking_stops_at_top() {
    let today = Date::new(2026, 9, 11).unwrap();
    let events: Vec<UnlockEvent> = (0..5).map(|_| parse_event(&sample_row()).unwrap()).collect();
    let ranked = rank_sorted(events, &[true; 5], today, 2);
    assert_eq!(ranked.len(), 2);
    assert_eq!(ranked[1].rank, 2);
}

#[test]
fn holders_from_replies() {
    let row = object(vec![
        ("LIMITED_HOLDER_NAME", text("某基金")),
        ("ADD_LISTING_SHARES", float(100.0)),
        ("LOCK_MONTH", integer(12)),
    ]);
    let holder = parse_holder(&row).unwrap();
    assert_eq!(holder.name, "某基金");
    assert_eq!(holder.lock_month, Some(JsonNumber::Int(12)));
    assert_eq!(holder.add_listing_cap, JsonNumber::Int(0));
    assert!(parse_holder(&object(vec![])).is_none());
    let reply = object(vec![
        ("success", JsonValue::Bool(true)),
        ("result", object(vec![("data", JsonValue::Array(vec![row, object(vec![])]))])),
    ]);
    assert_eq!(holders_from_response(&reply).len(), 1);
    let failed = object(vec![("success", JsonValue::Bool(false))]);
    assert!(holders_from_response(&failed).is_empty());
    let params = holder_params("300008", Date::new(2026, 9, 20).unwrap());
    assert!(params.contains(&(
        "filter".to_string(),
        "(SECURITY_CODE=\"300008\")(FREE_DATE='2026-09-20')".to_string()
    )));
}

#[test]
fn report_names_and_markdown() {
    let today = Date::new(2026, 9, 8).unwrap();
    assert_eq!(report_stem(today, 1), "20260908-大额解禁Top1图谱索引_1只");
    let (md, json) = report_paths("out", today, 1);
    assert_eq!(md, "out/20260908-大额解禁Top1图谱索引_1只.md");
    assert_eq!(json, "out/20260908-大额解禁Top1图谱索引_1只.json");
    let event = parse_event(&sample_row()).unwrap();
    let rows = rank_sorted(vec![event], &[true], today, 10);
    let figures = vec![RowFigures {
        lift_yi: "4.19".into(),
        free_ratio_pct: "3.65".into(),
    }];
    let holder_figures: Vec<Vec<HolderFigures>> = vec![vec![]];
    let rendered = render_markdown(
        today,
        today,
        today.add_days(60),
        "1.00",
        7,
        &rows,
        &figures,
        &holder_figures,
        &[],
    );
    assert!(rendered.starts_with("# 20260908-大额解禁Top1图谱索引_1只\n\n"));
    assert!(rendered.contains("解禁期前"));
    assert!(rendered.contains("天海防务"));
    assert!(rendered.contains("data.eastmoney.com/dxf/q/300008.html"));
    assert!(rendered.contains("- 窗口: 2026-09-08 ～ 2026-11-07（解禁期前，含当日）\n"));
    assert!(rendered.contains(
        "| 1 | 300008 | 天海防务 | 2026-09-20 | 12 | 4.19 | 3.65 | 定向增发机构配售股份 | [解禁]("
    ));
    assert!(!rendered.contains("## 解禁临近"));
    assert!(!rendered.contains("## 全市场解禁日历"));
    assert!(!rendered.contains("## 解禁股东"));
}

#[test]
fn markdown_sections_when_present() {
    let today = Date::new(2026, 9, 15).unwrap();
    let event = parse_event(&sample_row()).unwrap();
    let mut rows = rank_sorted(vec![event], &[true], today, 10);
    let holder_row = object(vec![("LIMITED_HOLDER_NAME", text("某基金"))]);
    rows[0].holders.push(parse_holder(&holder_row).unwrap());
    let figures = vec![RowFigures {
        lift_yi: "4.19".into(),
        free_ratio_pct: "3.65".into(),
    }];
    let holder_figures = vec![vec![HolderFigures {
        shares: "100".into(),
        cap: "665".into(),
        lock_month: "-".into(),
    }]];
    let calendar = vec![CalendarLine {
        date: "2026-09-20 00:00:00".into(),
        org_num: "3".into(),
        lift_yi: "12.50".into(),
    }];
    let rendered = render_markdown(
        today,
        today,
        today.add_days(60),
        "1.00",
        7,
        &rows,
        &figures,
        &holder_figures,
        &calendar,
    );
    assert!(rendered.contains("## 解禁临近（7 天内）\n\n"));
    assert!(rendered.contains("| 5 | 300008 | 天海防务 | 2026-09-20 | 4.19 | 定向增发机构配售股份 |\n"));
    assert!(rendered.contains("| 2026-09-20 | 3 | 12.50 |\n"));
    assert!(rendered.contains("\n### 300008 天海防务（2026-09-20）\n"));
    assert!(rendered.contains("| 某基金 | 100 | 665 | - |  |\n"));
    assert!(rendered.ends_with("\n\n"));
    assert_eq!(format_date("2026-09-20T00:00:00"), "2026-09-20");
    assert_eq!(format_date("unknown"), "unknown");
}

fn request() -> FetchRequest {
    FetchRequest {
        days: None,
        top: None,
        min_yi: None,
        near: None,
        as_of: None,
        code: None,
        holders: None,
        calendar: None,
        output: None,
        pause_ms: None,
    }
}

#[test]
fn fetch_request_defaults() {
    let today = Date::new(2026, 9, 11).unwrap();
    let config = build_config_on(&request(), "reports", today).unwrap();
    assert_eq!(config.as_of, today);
    assert_eq!(config.days, 60);
    assert_eq!(config.top, 100);
    assert_eq!(config.min_yi, 1.0f64.to_bits());
    assert_eq!(config.near_days, 7);
    assert_eq!(config.code, None);
    assert!(!config.holders);
    assert!(config.calendar);
    assert_eq!(config.pause_ms, 200);
    assert_eq!(config.output_dir, "reports");
    let mut body = request();
    body.as_of = Some(" 2026/10/01 ".into());
    body.code = Some("  ".into());
    body.output = Some(" out ".into());
    let config = build_config_on(&body, "reports", today).unwrap();
    assert_eq!(config.as_of, Date::new(2026, 10, 1).unwrap());
    assert_eq!(config.code, None);
    assert_eq!(config.output_dir, "out");
}

#[test]
fn fetch_request_limits() {
    let today = Date::new(2026, 9, 11).unwrap();
    let message = |body: FetchRequest| match build_config_on(&body, "reports", today) {
        Err(RequestError::BadRequest(m)) => m,
        Ok(_) => panic!("expected a bad request"),
    };
    let mut body = request();
    body.days = Some(0);
    assert_eq!(message(body), "--days 需在 1～365");
    let mut body = request();
    body.top = Some(501);
    assert_eq!(message(body), "--top 需在 1～500");
    let mut body = request();
    body.min_yi = Some((-0.5f64).to_bits());
    assert_eq!(message(body), "最低市值不能为负");
    let mut body = request();
    body.min_yi = Some(f64::NAN.to_bits());
    assert_eq!(message(body), "最低市值不能为负");
    let mut body = request();
    body.near = Some(366);
    assert_eq!(message(body), "临近天数过大");
    let mut body = request();
    body.pause_ms = Some(5_001);
    assert_eq!(message(body), "分页间隔过大");
    let mut body = request();
    body.as_of = Some("2026-02-30".into());
    assert_eq!(message(body), "基准日无效: invalid date 2026-02-30");
    let mut body = request();
    body.min_yi = Some((-0.0f64).to_bits());
    assert!(build_config_on(&body, "reports", today).is_ok());
}

#[test]
fn control_page_is_html() {
    assert!(index_html().starts_with("<!doctype html>"));
    assert!(index_html().contains("/api/fetch"));
}

#[test]
fn control_page_routes() {
    assert_eq!(route(HttpMethod::Get, "/"), Route::Page);
    assert_eq!(route(HttpMethod::Get, "/index.html?x=1"), Route::Page);
    assert_eq!(route(HttpMethod::Get, "/favicon.ico"), Route::Favicon);
    assert_eq!(route(HttpMethod::Get, "/api/defaults"), Route::Defaults);
    assert_eq!(route(HttpMethod::Post, "/api/fetch?now"), Route::Fetch);
    assert_eq!(route(HttpMethod::Get, "/api/fetch"), Route::NotFound);
    assert_eq!(route(HttpMethod::Post, "/"), Route::NotFound);
    assert_eq!(route(HttpMethod::Other, "/"), Route::NotFound);
    assert_eq!(route(HttpMethod::Get, "/index"), Route::NotFound);
}

#[test]
fn control_page_payloads() {
    let today = Date::new(2026, 9, 11).unwrap();
    let defaults = defaults_payload(today, "out");
    assert_eq!(defaults.get("as_of").and_then(|v| v.as_str()), Some("2026-09-11"));
    assert_eq!(defaults.get("days").and_then(|v| v.as_u64()), Some(60));
    assert_eq!(defaults.get("top").and_then(|v| v.as_u64()), Some(100));
    assert_eq!(defaults.get("near").and_then(|v| v.as_u64()), Some(7));
    assert_eq!(
        defaults.get("min_yi").and_then(|v| v.as_number()),
        Some(JsonNumber::Float(1.0f64.to_bits()))
    );
    assert_eq!(defaults.get("output").and_then(|v| v.as_str()), Some("out"));
    let refused = error_payload("正在抓取");
    assert_eq!(refused.get("error").and_then(|v| v.as_str()), Some("正在抓取"));
}

#[test]
fn fetch_answer_as_json() {
    let today = Date::new(2026, 9, 11).unwrap();
    let event = parse_event(&sample_row()).unwrap();
    let mut rows = rank_sorted(vec![event], &[true], today, 10);
    let holder_row = object(vec![
        ("LIMITED_HOLDER_NAME", text("某基金")),
        ("LOCK_MONTH", integer(12)),
    ]);
    rows[0].holders.push(parse_holder(&holder_row).unwrap());
    let lift = JsonNumber::Float(4.19f64.to_bits());
    let ratio = JsonNumber::Float(3.65f64.to_bits());
    let row = row_json(&rows[0], lift, ratio);
    assert_eq!(row.get("rank").and_then(|v| v.as_u64()), Some(1));
    assert_eq!(row.get("free_date").and_then(|v| v.as_str()), Some("2026-09-20"));
    assert_eq!(row.get("days_ahead").and_then(|v| v.as_number()), Some(JsonNumber::Int(9)));
    assert_eq!(row.get("lift_yi").and_then(|v| v.as_number()), Some(lift));
    assert_eq!(
        row.get("quote_url").and_then(|v| v.as_str()),
        Some("https://quote.eastmoney.com/sz300008.html")
    );
    let holders = row.get("holders").and_then(|v| v.as_array()).unwrap();
    assert_eq!(holders.len(), 1);
    assert_eq!(holders[0].get("name").and_then(|v| v.as_str()), Some("某基金"));
    assert_eq!(holders[0].get("lock_month").and_then(|v| v.as_number()), Some(JsonNumber::Int(12)));
    let alone = holder_json(&rows[0].holders[0]);
    assert!(matches!(alone.get("add_listing_cap"), Some(JsonValue::Number(JsonNumber::Int(0)))));
    let day = CalendarLine {
        date: "2026-09-20 00:00:00".into(),
        org_num: "3".into(),
        lift_yi: "12.50".into(),
    };
    assert_eq!(day_json(&day).get("date").and_then(|v| v.as_str()), Some("2026-09-20"));
    let payload = fetch_payload_with_meta(
        today,
        today.add_days(60),
        "out/a.md",
        "out/a.json",
        "# md",
        &rows,
        &[(lift, ratio)],
        &[day],
    );
    assert_eq!(payload.get("end").and_then(|v| v.as_str()), Some("2026-11-10"));
    assert_eq!(payload.get("markdown_path").and_then(|v| v.as_str()), Some("out/a.md"));
    assert_eq!(payload.get("rows").and_then(|v| v.as_array()).map(|r| r.len()), Some(1));
    assert_eq!(payload.get("calendar").and_then(|v| v.as_array()).map(|r| r.len()), Some(1));
}

#[test]
fn far_dates_still_count_days() {
    let today = Date::new(2026, 9, 11).unwrap();
    let mut event = parse_event(&sample_row()).unwrap();
    event.free_date = "5500000-01-01".into();
    assert!(matches!(event.days_ahead(today), Some(d) if d > 2_000_000_000));
    event.free_date = "6000000-01-01".into();
    assert_eq!(event.days_ahead(today), None);
}
