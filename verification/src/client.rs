//! Requests to the Eastmoney data center for lockup-expiry reports, and how
//! their replies are read.
//!
//! Paging is a state machine: the caller sends the request that
//! `window_params` describes, hands the reply to `window_on_page`, and
//! waits between pages when it answers `Next`.
use vstd::prelude::*;

use crate::date::Date;
use crate::json::JsonValue;
use crate::model::{events_view, parse_event, parse_holder, spec_parse_event, spec_parse_holder, Holder, HolderView, UnlockEvent, UnlockEventView};
use crate::text::{all_ascii_digits, decimal, digits_value, lemma_decimal_reads_back, push_decimal, push_str};

verus! {

#[derive(Debug)]
pub enum FetchError {
    Http(String),
    Json(String),
    Upstream(String),
}

pub enum FetchErrorView {
    Http(Seq<char>),
    Json(Seq<char>),
    Upstream(Seq<char>),
}

impl FetchError {
    pub open spec fn view(&self) -> FetchErrorView {
        match self {
            FetchError::Http(m) => FetchErrorView::Http(m@),
            FetchError::Json(m) => FetchErrorView::Json(m@),
            FetchError::Upstream(m) => FetchErrorView::Upstream(m@),
        }
    }

    /// The error's message.
    pub fn message(&self) -> (r: &str)
        ensures
            r@ == match self.view() {
                FetchErrorView::Http(m) => m,
                FetchErrorView::Json(m) => m,
                FetchErrorView::Upstream(m) => m,
            },
    {
        match self {
            FetchError::Http(m) => m.as_str(),
            FetchError::Json(m) => m.as_str(),
            FetchError::Upstream(m) => m.as_str(),
        }
    }
}

pub open spec fn spec_datacenter_url() -> Seq<char> {
    "https://datacenter-web.eastmoney.com/api/data/v1/get"@
}

/// The data-center endpoint.
pub fn datacenter_url() -> (r: &'static str)
    ensures
        r@ == spec_datacenter_url(),
{
    "https://datacenter-web.eastmoney.com/api/data/v1/get"
}

pub open spec fn lift_stage_columns() -> Seq<char> {
    "SECURITY_CODE,SECURITY_NAME_ABBR,FREE_DATE,CURRENT_FREE_SHARES,ABLE_FREE_SHARES,LIFT_MARKET_CAP,FREE_RATIO,NEW,B20_ADJCHRATE,A20_ADJCHRATE,FREE_SHARES_TYPE,TOTAL_RATIO,NON_FREE_SHARES,BATCH_HOLDER_NUM"@
}

pub open spec fn holder_columns() -> Seq<char> {
    "LIMITED_HOLDER_NAME,ADD_LISTING_SHARES,ACTUAL_LISTED_SHARES,ADD_LISTING_CAP,LOCK_MONTH,RESIDUAL_LIMITED_SHARES,FREE_SHARES_TYPE,PLAN_FEATURE"@
}

pub open spec fn params_view(v: Seq<(String, String)>) -> Seq<(Seq<char>, Seq<char>)> {
    v.map_values(|p: (String, String)| (p.0@, p.1@))
}

fn param(key: &str, value: &str) -> (r: (String, String))
    ensures
        r.0@ == key@,
        r.1@ == value@,
{
    (String::from_str(key), String::from_str(value))
}

/// The query of page `page` of the unlocks between `start` and `end`.
pub open spec fn spec_window_params(start: Date, end: Date, page: u32) -> Seq<(Seq<char>, Seq<char>)> {
    seq![
        ("sortColumns"@, "FREE_DATE,CURRENT_FREE_SHARES"@),
        ("sortTypes"@, "1,1"@),
        ("pageSize"@, "500"@),
        ("pageNumber"@, decimal(page as nat)),
        ("reportName"@, "RPT_LIFT_STAGE"@),
        ("columns"@, lift_stage_columns()),
        ("source"@, "WEB"@),
        ("client"@, "WEB"@),
        ("filter"@, "(FREE_DATE>='"@ + start.spec_to_string() + "')(FREE_DATE<='"@ + end.spec_to_string()
            + "')"@),
    ]
}

/// The query of one page of the unlocks between `start` and `end`, sorted
/// by date and amount, 500 to a page.
pub fn window_params(start: Date, end: Date, page: u32) -> (r: Vec<(String, String)>)
    ensures
        params_view(r@) == spec_window_params(start, end, page),
{
    let mut page_text = String::new();
    push_decimal(&mut page_text, page as u64);
    let mut filter = String::new();
    push_str(&mut filter, "(FREE_DATE>='");
    let s = start.to_string();
    push_str(&mut filter, s.as_str());
    push_str(&mut filter, "')(FREE_DATE<='");
    let e = end.to_string();
    push_str(&mut filter, e.as_str());
    push_str(&mut filter, "')");
    let mut r: Vec<(String, String)> = Vec::new();
    r.push(param("sortColumns", "FREE_DATE,CURRENT_FREE_SHARES"));
    r.push(param("sortTypes", "1,1"));
    r.push(param("pageSize", "500"));
    r.push(param("pageNumber", page_text.as_str()));
    r.push(param("reportName", "RPT_LIFT_STAGE"));
    r.push(param("columns", "SECURITY_CODE,SECURITY_NAME_ABBR,FREE_DATE,CURRENT_FREE_SHARES,ABLE_FREE_SHARES,LIFT_MARKET_CAP,FREE_RATIO,NEW,B20_ADJCHRATE,A20_ADJCHRATE,FREE_SHARES_TYPE,TOTAL_RATIO,NON_FREE_SHARES,BATCH_HOLDER_NUM"));
    r.push(param("source", "WEB"));
    r.push(param("client", "WEB"));
    r.push(param("filter", filter.as_str()));
    assert(params_view(r@) =~= spec_window_params(start, end, page));
    r
}

/// A window query asks for exactly the page it is given: its only
/// `pageNumber` parameter is written in decimal digits that read back as
/// that page, 500 events to a page; two queries of the same window differ
/// in nothing but the page.
pub proof fn lemma_window_params_ask_for_page(start: Date, end: Date, page: u32, other: u32)
    ensures
        ({
            let q = spec_window_params(start, end, page);
            &&& q.len() == 9
            &&& q[3].0 == "pageNumber"@
            &&& forall|k: int| 0 <= k < q.len() && k != 3 ==> (#[trigger] q[k]).0 != "pageNumber"@
            &&& q[3].1.len() >= 1
            &&& all_ascii_digits(q[3].1)
            &&& digits_value(q[3].1) == page
            &&& q[2] == ("pageSize"@, "500"@)
            &&& forall|k: int|
                0 <= k < q.len() && k != 3 ==> #[trigger] q[k] == spec_window_params(start, end, other)[k]
        }),
{
    lemma_decimal_reads_back(page as nat);
    let q = spec_window_params(start, end, page);
    reveal_strlit("pageNumber");
    reveal_strlit("sortColumns");
    reveal_strlit("sortTypes");
    reveal_strlit("pageSize");
    reveal_strlit("reportName");
    reveal_strlit("columns");
    reveal_strlit("source");
    reveal_strlit("client");
    reveal_strlit("filter");
    assert forall|k: int| 0 <= k < q.len() && k != 3 implies (#[trigger] q[k]).0 != "pageNumber"@ by {
        assert(q[k].0.len() != 10 || q[k].0[0] != 'p');
    }
}

/// The query of the holders whose shares of `code` unlock on `free_date`,
/// largest first, 50 at most.
pub open spec fn spec_holder_params(code: Seq<char>, free_date: Date) -> Seq<(Seq<char>, Seq<char>)> {
    seq![
        ("sortColumns"@, "ADD_LISTING_SHARES"@),
        ("sortTypes"@, "-1"@),
        ("pageSize"@, "50"@),
        ("pageNumber"@, "1"@),
        ("reportName"@, "RPT_LIFT_GD"@),
        ("columns"@, holder_columns()),
        ("source"@, "WEB"@),
        ("client"@, "WEB"@),
        ("filter"@, "(SECURITY_CODE=\""@ + code + "\")(FREE_DATE='"@ + free_date.spec_to_string() + "')"@),
    ]
}

pub fn holder_params(code: &str, free_date: Date) -> (r: Vec<(String, String)>)
    ensures
        params_view(r@) == spec_holder_params(code@, free_date),
{
    let mut filter = String::new();
    push_str(&mut filter, "(SECURITY_CODE=\"");
    push_str(&mut filter, code);
    push_str(&mut filter, "\")(FREE_DATE='");
    let d = free_date.to_string();
    push_str(&mut filter, d.as_str());
    push_str(&mut filter, "')");
    let mut r: Vec<(String, String)> = Vec::new();
    r.push(param("sortColumns", "ADD_LISTING_SHARES"));
    r.push(param("sortTypes", "-1"));
    r.push(param("pageSize", "50"));
    r.push(param("pageNumber", "1"));
    r.push(param("reportName", "RPT_LIFT_GD"));
    r.push(param("columns", "LIMITED_HOLDER_NAME,ADD_LISTING_SHARES,ACTUAL_LISTED_SHARES,ADD_LISTING_CAP,LOCK_MONTH,RESIDUAL_LIMITED_SHARES,FREE_SHARES_TYPE,PLAN_FEATURE"));
    r.push(param("source", "WEB"));
    r.push(param("client", "WEB"));
    r.push(param("filter", filter.as_str()));
    assert(params_view(r@) =~= spec_holder_params(code@, free_date));
    r
}

// ---------------------------------------------------------------------------
// Paging through a window
// ---------------------------------------------------------------------------
pub struct WindowFetch {
    /// The page to ask for next.
    pub page: u32,
    /// How many pages the data center reported.
    pub pages: u32,
    /// The events read so far.
    pub events: Vec<UnlockEvent>,
}

pub enum WindowStep {
    /// Ask for the next page (after the pause between pages).
    Next(WindowFetch),
    /// Every page is read.
    Done(Vec<UnlockEvent>),
}

/// The events of the rows that read as events, in order.
pub open spec fn parsed_events(rows: Seq<JsonValue>) -> Seq<UnlockEventView>
    decreases rows.len(),
{
    if rows.len() == 0 {
        Seq::empty()
    } else {
        let rest = parsed_events(rows.drop_last());
        match spec_parse_event(rows.last()) {
            Some(e) => rest.push(e),
            None => rest,
        }
    }
}

/// The holders of the rows that read as holders, in order.
pub open spec fn parsed_holders(rows: Seq<JsonValue>) -> Seq<HolderView>
    decreases rows.len(),
{
    if rows.len() == 0 {
        Seq::empty()
    } else {
        let rest = parsed_holders(rows.drop_last());
        match spec_parse_holder(rows.last()) {
            Some(h) => rest.push(h),
            None => rest,
        }
    }
}

/// Whether the reply says `"success": true`.
pub open spec fn reply_ok(body: JsonValue) -> bool {
    match body.field("success"@) {
        Some(JsonValue::Bool(b)) => b,
        _ => false,
    }
}

/// The page count that a reply's result reports: `pages`, at least 1,
/// taken to 32 bits.
pub open spec fn reported_pages(result: JsonValue) -> u32 {
    let p = match result.field("pages"@) {
        Some(v) => match v.spec_as_u64() {
            Some(n) => n,
            None => 1,
        },
        None => 1,
    };
    (if p >= 1 { p } else { 1 }) as u32
}

/// The rows of a reply's result (none when `data` is not an array).
pub open spec fn result_rows(result: JsonValue) -> Seq<JsonValue> {
    match result.field("data"@) {
        Some(v) => match v.items() {
            Some(rows) => rows,
            None => Seq::empty(),
        },
        None => Seq::empty(),
    }
}

/// The error message of a failed reply: its `message`, or a default.
pub open spec fn reply_message(body: JsonValue) -> Seq<char> {
    match body.field("message"@) {
        Some(v) => match v.text() {
            Some(m) => m,
            None => "eastmoney request failed"@,
        },
        None => "eastmoney request failed"@,
    }
}

pub enum WindowStepView {
    Next(u32, u32, Seq<UnlockEventView>),
    Done(Seq<UnlockEventView>),
}

/// Reading one page's reply: a failed reply is an upstream error, a reply
/// without a result too; otherwise its events are added, its page count
/// kept, and the next page is due while there is one.
pub open spec fn spec_window_on_page(
    page: u32,
    events: Seq<UnlockEventView>,
    body: JsonValue,
) -> Result<WindowStepView, FetchErrorView> {
    if !reply_ok(body) {
        Err(FetchErrorView::Upstream(reply_message(body)))
    } else {
        match body.field("result"@) {
            None => Err(FetchErrorView::Upstream("missing result"@)),
            Some(result) => {
                let pages = reported_pages(result);
                let all = events + parsed_events(result_rows(result));
                if page < u32::MAX && page + 1 <= pages {
                    Ok(WindowStepView::Next((page + 1) as u32, pages, all))
                } else {
                    Ok(WindowStepView::Done(all))
                }
            },
        }
    }
}

/// Feeding replies one by one from the first page: the state after the
/// last of them (a finished or failed run reads no further replies).
pub open spec fn window_after(bodies: Seq<JsonValue>) -> Result<WindowStepView, FetchErrorView>
    decreases bodies.len(),
{
    if bodies.len() == 0 {
        Ok(WindowStepView::Next(1, 1, Seq::empty()))
    } else {
        match window_after(bodies.drop_last()) {
            Ok(WindowStepView::Next(page, _pages, events)) => spec_window_on_page(
                page,
                events,
                bodies.last(),
            ),
            other => other,
        }
    }
}

/// A reply that succeeded and carries a result.
pub open spec fn reply_has_result(body: JsonValue) -> bool {
    reply_ok(body) && body.field("result"@) is Some
}

/// The events of each reply's rows, reply after reply.
pub open spec fn events_of_replies(bodies: Seq<JsonValue>) -> Seq<UnlockEventView>
    decreases bodies.len(),
{
    if bodies.len() == 0 {
        Seq::empty()
    } else {
        events_of_replies(bodies.drop_last()) + parsed_events(result_rows(bodies.last().at("result"@)))
    }
}

/// The events a run holds so far.
pub open spec fn step_events(step: WindowStepView) -> Seq<UnlockEventView> {
    match step {
        WindowStepView::Next(_, _, events) => events,
        WindowStepView::Done(events) => events,
    }
}

/// Paging collects every page's events in order: while the run is still
/// asking for pages, each successful reply adds its events after those of
/// the pages before it.
pub proof fn lemma_window_collects_pages(bodies: Seq<JsonValue>)
    requires
        forall|i: int| 0 <= i < bodies.len() ==> reply_has_result(#[trigger] bodies[i]),
        bodies.len() > 0 ==> window_after(bodies.drop_last()) is Ok && window_after(
            bodies.drop_last(),
        )->Ok_0 is Next,
    ensures
        window_after(bodies) is Ok,
        step_events(window_after(bodies)->Ok_0) == events_of_replies(bodies),
    decreases bodies.len(),
{
    if bodies.len() > 0 {
        let before = bodies.drop_last();
        assert forall|i: int| 0 <= i < before.len() implies reply_has_result(#[trigger] before[i]) by {
            assert(before[i] == bodies[i]);
        }
        if before.len() > 0 {
            lemma_window_still_reading(before);
        }
        lemma_window_collects_pages(before);
        assert(reply_has_result(bodies[bodies.len() - 1]));
        let result = bodies.last().field("result"@)->0;
        assert(bodies.last().at("result"@) == result);
    }
}

/// A run that is still reading was still reading one reply earlier.
proof fn lemma_window_still_reading(bodies: Seq<JsonValue>)
    requires
        bodies.len() > 0,
        window_after(bodies) is Ok,
        window_after(bodies)->Ok_0 is Next,
    ensures
        window_after(bodies.drop_last()) is Ok,
        window_after(bodies.drop_last())->Ok_0 is Next,
{
}

/// The paging state before the first page.
pub fn window_start() -> (r: WindowFetch)
    ensures
        r.page == 1,
        r.pages == 1,
        r.events@.len() == 0,
{
    WindowFetch { page: 1, pages: 1, events: Vec::new() }
}

fn message_or(body: &JsonValue) -> (r: String)
    ensures
        r@ == reply_message(*body),
{
    match body.get("message") {
        Some(v) => match v.as_str() {
            Some(m) => String::from_str(m),
            None => String::from_str("eastmoney request failed"),
        },
        None => String::from_str("eastmoney request failed"),
    }
}

fn rows_of(result: &JsonValue) -> (r: Option<&Vec<JsonValue>>)
    ensures
        match r {
            Some(v) => result_rows(*result) == v@,
            None => result_rows(*result) == Seq::<JsonValue>::empty(),
        },
{
    match result.get("data") {
        Some(v) => v.as_array(),
        None => None,
    }
}

/// Reads the reply to the page that `state` asked for.
pub fn window_on_page(state: WindowFetch, body: &JsonValue) -> (r: Result<WindowStep, FetchError>)
    ensures
        match r {
            Ok(WindowStep::Next(s)) => spec_window_on_page(state.page, events_view(state.events@), *body)
                == Ok::<WindowStepView, FetchErrorView>(WindowStepView::Next(s.page, s.pages, events_view(s.events@))),
            Ok(WindowStep::Done(ev)) => spec_window_on_page(state.page, events_view(state.events@), *body)
                == Ok::<WindowStepView, FetchErrorView>(WindowStepView::Done(events_view(ev@))),
            Err(e) => spec_window_on_page(state.page, events_view(state.events@), *body) == Err::<
                WindowStepView,
                FetchErrorView,
            >(e.view()),
        },
{
    let ok = match body.get("success") {
        Some(v) => v.is_true(),
        None => false,
    };
    if !ok {
        return Err(FetchError::Upstream(message_or(body)));
    }
    let result = match body.get("result") {
        Some(r) => r,
        None => {
            return Err(FetchError::Upstream(String::from_str("missing result")));
        },
    };
    let reported = match result.get("pages") {
        Some(v) => match v.as_u64() {
            Some(n) => n,
            None => 1,
        },
        None => 1,
    };
    let pages = (if reported >= 1 {
        reported
    } else {
        1
    }) as u32;
    let mut events = state.events;
    let ghost before = events_view(events@);
    match rows_of(result) {
        Some(rows) => {
            let mut i: usize = 0;
            while i < rows.len()
                invariant
                    0 <= i <= rows.len(),
                    events_view(events@) == before + parsed_events(rows@.take(i as int)),
                decreases rows.len() - i,
            {
                assert(rows@.take(i + 1).drop_last() == rows@.take(i as int));
                let ghost ev = events_view(events@);
                match parse_event(&rows[i]) {
                    Some(e) => {
                        events.push(e);
                        assert(events_view(events@) == ev.push(e.view()));
                    },
                    None => {},
                }
                i = i + 1;
            }
            assert(rows@.take(rows.len() as int) == rows@);
        },
        None => {
            assert(parsed_events(Seq::<JsonValue>::empty()) == Seq::<UnlockEventView>::empty());
            assert(before + Seq::<UnlockEventView>::empty() == before);
        },
    }
    if state.page < u32::MAX && state.page + 1 <= pages {
        Ok(WindowStep::Next(WindowFetch { page: state.page + 1, pages, events }))
    } else {
        Ok(WindowStep::Done(events))
    }
}

pub open spec fn holders_view(v: Seq<Holder>) -> Seq<HolderView> {
    v.map_values(|h: Holder| h.view())
}

/// The holders in a `RPT_LIFT_GD` reply; a failed reply or one without
/// `result.data` rows gives none.
pub open spec fn spec_holders_from_response(body: JsonValue) -> Seq<HolderView> {
    if !reply_ok(body) {
        Seq::empty()
    } else {
        match body.at("result"@).field("data"@) {
            Some(v) => match v.items() {
                Some(rows) => parsed_holders(rows),
                None => Seq::empty(),
            },
            None => Seq::empty(),
        }
    }
}

/// Reads the holders from a reply.
pub fn holders_from_response(body: &JsonValue) -> (r: Vec<Holder>)
    ensures
        holders_view(r@) == spec_holders_from_response(*body),
{
    let ok = match body.get("success") {
        Some(v) => v.is_true(),
        None => false,
    };
    let mut holders: Vec<Holder> = Vec::new();
    if !ok {
        assert(holders_view(holders@) == Seq::<HolderView>::empty());
        return holders;
    }
    let rows = match body.get("result") {
        Some(result) => match result.get("data") {
            Some(v) => match v.as_array() {
                Some(rows) => rows,
                None => {
                    assert(holders_view(holders@) == Seq::<HolderView>::empty());
                    return holders;
                },
            },
            None => {
                assert(holders_view(holders@) == Seq::<HolderView>::empty());
                return holders;
            },
        },
        None => {
            assert(body.at("result"@) == JsonValue::Null);
            assert(holders_view(holders@) == Seq::<HolderView>::empty());
            return holders;
        },
    };
    let mut i: usize = 0;
    assert(holders_view(holders@) == parsed_holders(rows@.take(0)));
    while i < rows.len()
        invariant
            0 <= i <= rows.len(),
            holders_view(holders@) == parsed_holders(rows@.take(i as int)),
        decreases rows.len() - i,
    {
        assert(rows@.take(i + 1).drop_last() == rows@.take(i as int));
        let ghost hv = holders_view(holders@);
        match parse_holder(&rows[i]) {
            Some(h) => {
                holders.push(h);
                assert(holders_view(holders@) == hv.push(h.view()));
            },
            None => {},
        }
        i = i + 1;
    }
    assert(rows@.take(rows.len() as int) == rows@);
    holders
}

} // verus!
