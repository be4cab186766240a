//! The local control page: where a request goes, what a fetch request asks
//! for (checked and filled with defaults), and the JSON answers.
use vstd::prelude::*;

use crate::date::{spec_parse_date, Date};
use crate::json::{entry, lemma_entry_at, signed, string, uint, JsonNumber, JsonValue};
use crate::model::{Holder, RankedUnlock};
use crate::report::{format_date, spec_format_date, CalendarLine};
use crate::text::{chars_eq_str, chars_of, push_str, string_of, sub_chars, trim, trim_chars};

verus! {

/// A fetch request from the control page. `min_yi` holds the bits of the
/// `f64` minimum amount (in 亿元).
#[derive(Debug, Clone)]
pub struct FetchRequest {
    pub days: Option<u32>,
    pub top: Option<usize>,
    pub min_yi: Option<u64>,
    pub near: Option<u32>,
    pub as_of: Option<String>,
    pub code: Option<String>,
    pub holders: Option<bool>,
    pub calendar: Option<bool>,
    pub output: Option<String>,
    pub pause_ms: Option<u64>,
}

/// What a watch run does. `min_yi` holds the bits of the `f64` minimum
/// amount (in 亿元).
#[derive(Debug, Clone)]
pub struct WatchConfig {
    pub as_of: Date,
    pub days: u32,
    pub top: usize,
    pub min_yi: u64,
    pub near_days: u32,
    pub code: Option<String>,
    pub holders: bool,
    pub calendar: bool,
    pub pause_ms: u64,
    pub output_dir: String,
}

#[derive(Debug)]
pub enum RequestError {
    BadRequest(String),
}

impl RequestError {
    /// The error's message.
    pub fn message(&self) -> (r: &str)
        ensures
            match self {
                RequestError::BadRequest(m) => r@ == m@,
            },
    {
        match self {
            RequestError::BadRequest(m) => m.as_str(),
        }
    }
}

pub struct WatchConfigView {
    pub as_of: Date,
    pub days: u32,
    pub top: usize,
    pub min_yi: u64,
    pub near_days: u32,
    pub code: Option<Seq<char>>,
    pub holders: bool,
    pub calendar: bool,
    pub pause_ms: u64,
    pub output_dir: Seq<char>,
}

impl WatchConfig {
    pub open spec fn view(&self) -> WatchConfigView {
        WatchConfigView {
            as_of: self.as_of,
            days: self.days,
            top: self.top,
            min_yi: self.min_yi,
            near_days: self.near_days,
            code: match self.code {
                Some(c) => Some(c@),
                None => None,
            },
            holders: self.holders,
            calendar: self.calendar,
            pause_ms: self.pause_ms,
            output_dir: self.output_dir@,
        }
    }
}

/// The bits of the `f64` 1.0.
pub const ONE_F64_BITS: u64 = 0x3ff0_0000_0000_0000;

/// The `f64` with these bits is infinite, NaN or below zero.
pub open spec fn not_finite_or_negative(bits: u64) -> bool {
    (bits / 0x10_0000_0000_0000) % 0x800 == 0x7ff || bits > 0x8000_0000_0000_0000
}

/// The trimmed text, when it is not empty.
pub open spec fn non_blank(s: Option<String>) -> Option<Seq<char>> {
    match s {
        Some(t) => if trim(t@).len() > 0 {
            Some(trim(t@))
        } else {
            None
        },
        None => None,
    }
}

/// The run that a request asks for, given today's date: each limit is
/// checked in turn and the first one broken is the error.
pub open spec fn spec_build_config(body: FetchRequest, default_output: Seq<char>, today: Date) -> Result<
    WatchConfigView,
    Seq<char>,
> {
    let days = match body.days {
        Some(d) => d,
        None => 60,
    };
    let top = match body.top {
        Some(t) => t,
        None => 100,
    };
    let min_yi = match body.min_yi {
        Some(m) => m,
        None => ONE_F64_BITS,
    };
    let near_days = match body.near {
        Some(n) => n,
        None => 7,
    };
    let pause_ms = match body.pause_ms {
        Some(p) => p,
        None => 200,
    };
    if !(1 <= days <= 365) {
        Err("--days 需在 1～365"@)
    } else if !(1 <= top <= 500) {
        Err("--top 需在 1～500"@)
    } else if not_finite_or_negative(min_yi) {
        Err("最低市值不能为负"@)
    } else if near_days > 365 {
        Err("临近天数过大"@)
    } else if pause_ms > 5000 {
        Err("分页间隔过大"@)
    } else {
        let as_of = match non_blank(body.as_of) {
            Some(v) => spec_parse_date(v),
            None => Ok(today),
        };
        match as_of {
            Err(e) => Err("基准日无效: "@ + e),
            Ok(d) => Ok(
                WatchConfigView {
                    as_of: d,
                    days,
                    top,
                    min_yi,
                    near_days,
                    code: non_blank(body.code),
                    holders: match body.holders {
                        Some(h) => h,
                        None => false,
                    },
                    calendar: match body.calendar {
                        Some(c) => c,
                        None => true,
                    },
                    pause_ms,
                    output_dir: match non_blank(body.output) {
                        Some(o) => o,
                        None => default_output,
                    },
                },
            ),
        }
    }
}

fn non_blank_string(s: &Option<String>) -> (r: Option<String>)
    ensures
        match r {
            Some(t) => non_blank(*s) == Some(t@),
            None => non_blank(*s) is None,
        },
{
    match s {
        Some(t) => {
            let v = chars_of(t.as_str());
            let tr = trim_chars(&v);
            if tr.len() > 0 {
                Some(string_of(&tr))
            } else {
                None
            }
        },
        None => None,
    }
}

fn bad_request(msg: &str) -> (r: RequestError)
    ensures
        r == RequestError::BadRequest(r->BadRequest_0) && r->BadRequest_0@ == msg@,
{
    RequestError::BadRequest(String::from_str(msg))
}

/// Checks a fetch request and fills in the defaults, with `today` standing
/// for a missing date.
pub fn build_config_on(body: &FetchRequest, default_output: &str, today: Date) -> (r: Result<
    WatchConfig,
    RequestError,
>)
    ensures
        match r {
            Ok(c) => spec_build_config(*body, default_output@, today) == Ok::<WatchConfigView, Seq<char>>(
                c.view(),
            ),
            Err(RequestError::BadRequest(m)) => spec_build_config(*body, default_output@, today)
                == Err::<WatchConfigView, Seq<char>>(m@),
        },
{
    let days = match body.days {
        Some(d) => d,
        None => 60,
    };
    if !(1 <= days && days <= 365) {
        return Err(bad_request("--days 需在 1～365"));
    }
    let top = match body.top {
        Some(t) => t,
        None => 100,
    };
    if !(1 <= top && top <= 500) {
        return Err(bad_request("--top 需在 1～500"));
    }
    let min_yi = match body.min_yi {
        Some(m) => m,
        None => ONE_F64_BITS,
    };
    if (min_yi / 0x10_0000_0000_0000) % 0x800 == 0x7ff || min_yi > 0x8000_0000_0000_0000 {
        return Err(bad_request("最低市值不能为负"));
    }
    let near_days = match body.near {
        Some(n) => n,
        None => 7,
    };
    if near_days > 365 {
        return Err(bad_request("临近天数过大"));
    }
    let pause_ms = match body.pause_ms {
        Some(p) => p,
        None => 200,
    };
    if pause_ms > 5_000 {
        return Err(bad_request("分页间隔过大"));
    }
    let as_of = match non_blank_string(&body.as_of) {
        Some(value) => match Date::parse(value.as_str()) {
            Ok(d) => d,
            Err(e) => {
                let mut msg = String::new();
                push_str(&mut msg, "基准日无效: ");
                push_str(&mut msg, e.as_str());
                return Err(RequestError::BadRequest(msg));
            },
        },
        None => today,
    };
    let code = non_blank_string(&body.code);
    let output_dir = match non_blank_string(&body.output) {
        Some(o) => o,
        None => String::from_str(default_output),
    };
    Ok(
        WatchConfig {
            as_of,
            days,
            top,
            min_yi,
            near_days,
            code,
            holders: match body.holders {
                Some(h) => h,
                None => false,
            },
            calendar: match body.calendar {
                Some(c) => c,
                None => true,
            },
            pause_ms,
            output_dir,
        },
    )
}

/// Checks a fetch request and fills in the defaults; a missing date is
/// today's (by the system clock).
pub fn build_config(body: &FetchRequest, default_output: &str) -> (r: Result<WatchConfig, RequestError>)
    ensures
        exists|today: Date|
            today.wf() && #[trigger] spec_build_config(*body, default_output@, today) == match r {
                Ok(c) => Ok::<WatchConfigView, Seq<char>>(c.view()),
                Err(RequestError::BadRequest(m)) => Err::<WatchConfigView, Seq<char>>(m@),
            },
{
    let today = Date::today();
    build_config_on(body, default_output, today)
}

// ---------------------------------------------------------------------------
// Routing
// ---------------------------------------------------------------------------
/// The request methods that the control page tells apart.
#[derive(Debug, Clone, Copy, PartialEq, Eq, Structural)]
pub enum HttpMethod {
    Get,
    Post,
    Other,
}

/// What a request to the control page asks for.
#[derive(Debug, Clone, Copy, PartialEq, Eq, Structural)]
pub enum Route {
    /// The control page itself.
    Page,
    /// The (empty) icon.
    Favicon,
    /// The form's default values.
    Defaults,
    /// A fetch run.
    Fetch,
    NotFound,
}

/// The path of a request URL: the text before the first `?`.
pub open spec fn url_path(url: Seq<char>) -> Seq<char>
    decreases url.len(),
{
    if url.len() == 0 {
        url
    } else if url[0] == '?' {
        Seq::empty()
    } else {
        seq![url[0]] + url_path(url.drop_first())
    }
}

proof fn lemma_url_path(url: Seq<char>, i: int)
    requires
        0 <= i <= url.len(),
        forall|j: int| 0 <= j < i ==> url[j] != '?',
        i == url.len() || url[i] == '?',
    ensures
        url_path(url) == url.take(i),
    decreases i,
{
    if i > 0 {
        lemma_url_path(url.drop_first(), i - 1);
        assert(seq![url[0]] + url.drop_first().take(i - 1) == url.take(i));
    } else if url.len() > 0 {
        assert(url.take(0) == Seq::<char>::empty());
    }
}

/// Where a request goes: the page at `/` or `/index.html`, the icon, the
/// defaults and a fetch run (by POST); anything else is not found.
pub open spec fn spec_route(method: HttpMethod, url: Seq<char>) -> Route {
    let p = url_path(url);
    if method == HttpMethod::Get && (p == "/"@ || p == "/index.html"@) {
        Route::Page
    } else if method == HttpMethod::Get && p == "/favicon.ico"@ {
        Route::Favicon
    } else if method == HttpMethod::Get && p == "/api/defaults"@ {
        Route::Defaults
    } else if method == HttpMethod::Post && p == "/api/fetch"@ {
        Route::Fetch
    } else {
        Route::NotFound
    }
}

/// Where a request goes.
pub fn route(method: HttpMethod, url: &str) -> (r: Route)
    ensures
        r == spec_route(method, url@),
{
    let v = chars_of(url);
    let mut i: usize = 0;
    while i < v.len() && v[i] != '?'
        invariant
            0 <= i <= v.len(),
            forall|j: int| 0 <= j < i ==> v@[j] != '?',
        decreases v.len() - i,
    {
        i = i + 1;
    }
    proof {
        lemma_url_path(v@, i as int);
    }
    let path = sub_chars(&v, 0, i);
    if method == HttpMethod::Get && (chars_eq_str(&path, "/") || chars_eq_str(&path, "/index.html")) {
        Route::Page
    } else if method == HttpMethod::Get && chars_eq_str(&path, "/favicon.ico") {
        Route::Favicon
    } else if method == HttpMethod::Get && chars_eq_str(&path, "/api/defaults") {
        Route::Defaults
    } else if method == HttpMethod::Post && chars_eq_str(&path, "/api/fetch") {
        Route::Fetch
    } else {
        Route::NotFound
    }
}

/// The form's defaults: today's date, 60 days, the top 100, at least 1.0
/// 亿元, 7 days for "near", and the default output folder.
pub fn defaults_payload(today: Date, default_output: &str) -> (r: JsonValue)
    ensures
        r.text_at("as_of"@) == Some(today.spec_to_string()),
        r.field("days"@) == Some(JsonValue::Number(JsonNumber::Int(60))),
        r.field("top"@) == Some(JsonValue::Number(JsonNumber::Int(100))),
        r.field("min_yi"@) == Some(JsonValue::Number(JsonNumber::Float(ONE_F64_BITS))),
        r.field("near"@) == Some(JsonValue::Number(JsonNumber::Int(7))),
        r.text_at("output"@) == Some(default_output@),
{
    let as_of = today.to_string();
    let mut o: Vec<(String, JsonValue)> = Vec::new();
    o.push(entry("as_of", string(as_of.as_str())));
    o.push(entry("days", uint(60)));
    o.push(entry("top", uint(100)));
    o.push(entry("min_yi", JsonValue::Number(JsonNumber::Float(ONE_F64_BITS))));
    o.push(entry("near", uint(7)));
    o.push(entry("output", string(default_output)));
    proof {
        reveal_strlit("as_of");
        reveal_strlit("days");
        reveal_strlit("top");
        reveal_strlit("min_yi");
        reveal_strlit("near");
        reveal_strlit("output");
        assert("as_of"@.len() == 5);
        assert("days"@.len() == 4);
        assert("top"@.len() == 3);
        assert("min_yi"@.len() == 6);
        assert("near"@.len() == 4);
        assert("output"@.len() == 6);
        assert("days"@[0] != "near"@[0]);
        assert("min_yi"@[0] != "output"@[0]);
        lemma_entry_at(o@, 0, "as_of"@);
        lemma_entry_at(o@, 1, "days"@);
        lemma_entry_at(o@, 2, "top"@);
        lemma_entry_at(o@, 3, "min_yi"@);
        lemma_entry_at(o@, 4, "near"@);
        lemma_entry_at(o@, 5, "output"@);
    }
    JsonValue::Object(o)
}

/// The answer to a refused request: `{"error": message}`.
pub fn error_payload(message: &str) -> (r: JsonValue)
    ensures
        r.text_at("error"@) == Some(message@),
{
    let mut o: Vec<(String, JsonValue)> = Vec::new();
    o.push(entry("error", string(message)));
    proof {
        lemma_entry_at(o@, 0, "error"@);
    }
    JsonValue::Object(o)
}

// ---------------------------------------------------------------------------
// The fetch answer
// ---------------------------------------------------------------------------
/// A JSON holder carries the holder's fields under their own names.
pub open spec fn holder_fields(v: JsonValue, holder: Holder) -> bool {
    &&& v.text_at("name"@) == Some(holder.name@)
    &&& v.field("add_listing_shares"@) == Some(JsonValue::Number(holder.add_listing_shares))
    &&& v.field("actual_listed_shares"@) == Some(JsonValue::Number(holder.actual_listed_shares))
    &&& v.field("add_listing_cap"@) == Some(JsonValue::Number(holder.add_listing_cap))
    &&& v.field("lock_month"@) == Some(
        match holder.lock_month {
            Some(m) => JsonValue::Number(m),
            None => JsonValue::Null,
        },
    )
    &&& v.text_at("share_type"@) == Some(holder.share_type@)
}

/// A holder as JSON.
pub fn holder_json(holder: &Holder) -> (r: JsonValue)
    ensures
        holder_fields(r, *holder),
{
    let lock_month = match holder.lock_month {
        Some(m) => JsonValue::Number(m),
        None => JsonValue::Null,
    };
    let mut o: Vec<(String, JsonValue)> = Vec::new();
    o.push(entry("name", string(holder.name.as_str())));
    o.push(entry("add_listing_shares", JsonValue::Number(holder.add_listing_shares)));
    o.push(entry("actual_listed_shares", JsonValue::Number(holder.actual_listed_shares)));
    o.push(entry("add_listing_cap", JsonValue::Number(holder.add_listing_cap)));
    o.push(entry("lock_month", lock_month));
    o.push(entry("share_type", string(holder.share_type.as_str())));
    proof {
        reveal_strlit("name");
        assert("name"@.len() == 4);
        reveal_strlit("add_listing_shares");
        assert("add_listing_shares"@.len() == 18);
        reveal_strlit("actual_listed_shares");
        assert("actual_listed_shares"@.len() == 20);
        reveal_strlit("add_listing_cap");
        assert("add_listing_cap"@.len() == 15);
        reveal_strlit("lock_month");
        assert("lock_month"@.len() == 10);
        reveal_strlit("share_type");
        assert("share_type"@.len() == 10);
        lemma_entry_at(o@, 0, "name"@);
        lemma_entry_at(o@, 1, "add_listing_shares"@);
        lemma_entry_at(o@, 2, "actual_listed_shares"@);
        lemma_entry_at(o@, 3, "add_listing_cap"@);
        lemma_entry_at(o@, 4, "lock_month"@);
        assert("lock_month"@[0] != "share_type"@[0]);
        lemma_entry_at(o@, 5, "share_type"@);
    }
    JsonValue::Object(o)
}

/// A JSON row carries the ranked row: its rank, the stock, the unlock date
/// as `YYYY-MM-DD`, the days ahead, the given amounts, the links and the
/// holders.
pub open spec fn row_fields(v: JsonValue, row: RankedUnlock, lift_yi: JsonNumber, free_ratio_pct: JsonNumber) -> bool {
    &&& v.field("rank"@) == Some(JsonValue::Number(JsonNumber::Int(row.rank as i128)))
    &&& v.text_at("code"@) == Some(row.event.code@)
    &&& v.text_at("name"@) == Some(row.event.name@)
    &&& v.text_at("free_date"@) == Some(spec_format_date(row.event.free_date@))
    &&& v.field("days_ahead"@) == Some(JsonValue::Number(JsonNumber::Int(row.days_ahead as i128)))
    &&& v.field("lift_yi"@) == Some(JsonValue::Number(lift_yi))
    &&& v.field("free_ratio_pct"@) == Some(JsonValue::Number(free_ratio_pct))
    &&& v.text_at("share_type"@) == Some(row.event.share_type@)
    &&& v.text_at("unlock_url"@) == Some(row.event.spec_unlock_url())
    &&& v.text_at("notice_url"@) == Some(row.event.spec_notice_url())
    &&& v.text_at("news_url"@) == Some(row.event.spec_news_url())
    &&& v.text_at("quote_url"@) == Some(row.event.spec_quote_url())
    &&& v.len_at("holders"@) == row.holders.len()
    &&& forall|i: int|
        0 <= i < row.holders.len() ==> holder_fields(#[trigger] v.item("holders"@, i), row.holders@[i])
}

/// A ranked row as JSON, with its amounts given (in 亿元 and percent,
/// rounded by the caller).
pub fn row_json(row: &RankedUnlock, lift_yi: JsonNumber, free_ratio_pct: JsonNumber) -> (r: JsonValue)
    ensures
        row_fields(r, *row, lift_yi, free_ratio_pct),
{
    let date = format_date(row.event.free_date.as_str());
    let unlock = row.event.unlock_url();
    let notice = row.event.notice_url();
    let news = row.event.news_url();
    let quote = row.event.quote_url();
    let mut holders: Vec<JsonValue> = Vec::new();
    let mut i: usize = 0;
    while i < row.holders.len()
        invariant
            0 <= i <= row.holders.len(),
            holders.len() == i,
            forall|k: int| 0 <= k < i ==> holder_fields(#[trigger] holders@[k], row.holders@[k]),
        decreases row.holders.len() - i,
    {
        holders.push(holder_json(&row.holders[i]));
        i = i + 1;
    }
    let ghost hv = holders@;
    let mut o: Vec<(String, JsonValue)> = Vec::new();
    o.push(entry("rank", uint(row.rank as u64)));
    o.push(entry("code", string(row.event.code.as_str())));
    o.push(entry("name", string(row.event.name.as_str())));
    o.push(entry("free_date", string(date.as_str())));
    o.push(entry("days_ahead", signed(row.days_ahead as i64)));
    o.push(entry("lift_yi", JsonValue::Number(lift_yi)));
    o.push(entry("free_ratio_pct", JsonValue::Number(free_ratio_pct)));
    o.push(entry("share_type", string(row.event.share_type.as_str())));
    o.push(entry("unlock_url", string(unlock.as_str())));
    o.push(entry("notice_url", string(notice.as_str())));
    o.push(entry("news_url", string(news.as_str())));
    o.push(entry("quote_url", string(quote.as_str())));
    o.push(entry("holders", JsonValue::Array(holders)));
    proof {
        reveal_strlit("rank");
        assert("rank"@.len() == 4);
        reveal_strlit("code");
        assert("code"@.len() == 4);
        reveal_strlit("name");
        assert("name"@.len() == 4);
        reveal_strlit("free_date");
        assert("free_date"@.len() == 9);
        reveal_strlit("days_ahead");
        assert("days_ahead"@.len() == 10);
        reveal_strlit("lift_yi");
        assert("lift_yi"@.len() == 7);
        reveal_strlit("free_ratio_pct");
        assert("free_ratio_pct"@.len() == 14);
        reveal_strlit("share_type");
        assert("share_type"@.len() == 10);
        reveal_strlit("unlock_url");
        assert("unlock_url"@.len() == 10);
        reveal_strlit("notice_url");
        assert("notice_url"@.len() == 10);
        reveal_strlit("news_url");
        assert("news_url"@.len() == 8);
        reveal_strlit("quote_url");
        assert("quote_url"@.len() == 9);
        reveal_strlit("holders");
        assert("holders"@.len() == 7);
        lemma_entry_at(o@, 0, "rank"@);
        assert("rank"@[0] != "code"@[0]);
        lemma_entry_at(o@, 1, "code"@);
        assert("rank"@[0] != "name"@[0]);
        assert("code"@[0] != "name"@[0]);
        lemma_entry_at(o@, 2, "name"@);
        lemma_entry_at(o@, 3, "free_date"@);
        lemma_entry_at(o@, 4, "days_ahead"@);
        lemma_entry_at(o@, 5, "lift_yi"@);
        lemma_entry_at(o@, 6, "free_ratio_pct"@);
        assert("days_ahead"@[0] != "share_type"@[0]);
        lemma_entry_at(o@, 7, "share_type"@);
        assert("days_ahead"@[0] != "unlock_url"@[0]);
        assert("share_type"@[0] != "unlock_url"@[0]);
        lemma_entry_at(o@, 8, "unlock_url"@);
        assert("days_ahead"@[0] != "notice_url"@[0]);
        assert("share_type"@[0] != "notice_url"@[0]);
        assert("unlock_url"@[0] != "notice_url"@[0]);
        lemma_entry_at(o@, 9, "notice_url"@);
        lemma_entry_at(o@, 10, "news_url"@);
        assert("free_date"@[0] != "quote_url"@[0]);
        lemma_entry_at(o@, 11, "quote_url"@);
        assert("lift_yi"@[0] != "holders"@[0]);
        lemma_entry_at(o@, 12, "holders"@);
        let r = JsonValue::Object(o);
        assert(r.at("holders"@).items() == Some(hv));
        assert forall|k: int| 0 <= k < row.holders.len() implies holder_fields(
            #[trigger] r.item("holders"@, k),
            row.holders@[k],
        ) by {
            assert(r.item("holders"@, k) == hv[k]);
        }
    }
    JsonValue::Object(o)
}

/// A JSON calendar day carries the day's date as `YYYY-MM-DD` and its
/// written-out figures.
pub open spec fn day_fields(v: JsonValue, day: CalendarLine) -> bool {
    &&& v.text_at("date"@) == Some(spec_format_date(day.date@))
    &&& v.text_at("org_num"@) == Some(day.org_num@)
    &&& v.text_at("lift_yi"@) == Some(day.lift_yi@)
}

/// A calendar day as JSON.
pub fn day_json(day: &CalendarLine) -> (r: JsonValue)
    ensures
        day_fields(r, *day),
{
    let date = format_date(day.date.as_str());
    let mut o: Vec<(String, JsonValue)> = Vec::new();
    o.push(entry("date", string(date.as_str())));
    o.push(entry("org_num", string(day.org_num.as_str())));
    o.push(entry("lift_yi", string(day.lift_yi.as_str())));
    proof {
        reveal_strlit("date");
        assert("date"@.len() == 4);
        reveal_strlit("org_num");
        assert("org_num"@.len() == 7);
        reveal_strlit("lift_yi");
        assert("lift_yi"@.len() == 7);
        lemma_entry_at(o@, 0, "date"@);
        lemma_entry_at(o@, 1, "org_num"@);
        assert("org_num"@[0] != "lift_yi"@[0]);
        lemma_entry_at(o@, 2, "lift_yi"@);
    }
    JsonValue::Object(o)
}

/// The answer to a fetch run: the window, where the reports went, the
/// Markdown, and every row (with its amounts, `amounts[i]` for `rows[i]`)
/// and calendar day as JSON.
pub fn fetch_payload_with_meta(
    start: Date,
    end: Date,
    markdown_path: &str,
    json_path: &str,
    markdown: &str,
    rows: &[RankedUnlock],
    amounts: &[(JsonNumber, JsonNumber)],
    calendar: &[CalendarLine],
) -> (r: JsonValue)
    requires
        amounts.len() == rows.len(),
    ensures
        r.text_at("start"@) == Some(start.spec_to_string()),
        r.text_at("end"@) == Some(end.spec_to_string()),
        r.text_at("markdown_path"@) == Some(markdown_path@),
        r.text_at("json_path"@) == Some(json_path@),
        r.text_at("markdown"@) == Some(markdown@),
        r.len_at("rows"@) == rows.len(),
        forall|i: int|
            0 <= i < rows.len() ==> row_fields(
                #[trigger] r.item("rows"@, i),
                rows@[i],
                amounts@[i].0,
                amounts@[i].1,
            ),
        r.len_at("calendar"@) == calendar.len(),
        forall|i: int| 0 <= i < calendar.len() ==> day_fields(#[trigger] r.item("calendar"@, i), calendar@[i]),
{
    let s = start.to_string();
    let e = end.to_string();
    let mut row_values: Vec<JsonValue> = Vec::new();
    let mut i: usize = 0;
    while i < rows.len()
        invariant
            0 <= i <= rows.len() == amounts.len(),
            row_values.len() == i,
            forall|k: int|
                0 <= k < i ==> row_fields(#[trigger] row_values@[k], rows@[k], amounts@[k].0, amounts@[k].1),
        decreases rows.len() - i,
    {
        let (lift, ratio) = amounts[i];
        row_values.push(row_json(&rows[i], lift, ratio));
        i = i + 1;
    }
    let mut day_values: Vec<JsonValue> = Vec::new();
    let mut j: usize = 0;
    while j < calendar.len()
        invariant
            0 <= j <= calendar.len(),
            day_values.len() == j,
            forall|k: int| 0 <= k < j ==> day_fields(#[trigger] day_values@[k], calendar@[k]),
        decreases calendar.len() - j,
    {
        day_values.push(day_json(&calendar[j]));
        j = j + 1;
    }
    let ghost rv = row_values@;
    let ghost dv = day_values@;
    let mut o: Vec<(String, JsonValue)> = Vec::new();
    o.push(entry("start", string(s.as_str())));
    o.push(entry("end", string(e.as_str())));
    o.push(entry("markdown_path", string(markdown_path)));
    o.push(entry("json_path", string(json_path)));
    o.push(entry("markdown", string(markdown)));
    o.push(entry("rows", JsonValue::Array(row_values)));
    o.push(entry("calendar", JsonValue::Array(day_values)));
    proof {
        reveal_strlit("start");
        assert("start"@.len() == 5);
        reveal_strlit("end");
        assert("end"@.len() == 3);
        reveal_strlit("markdown_path");
        assert("markdown_path"@.len() == 13);
        reveal_strlit("json_path");
        assert("json_path"@.len() == 9);
        reveal_strlit("markdown");
        assert("markdown"@.len() == 8);
        reveal_strlit("rows");
        assert("rows"@.len() == 4);
        reveal_strlit("calendar");
        assert("calendar"@.len() == 8);
        lemma_entry_at(o@, 0, "start"@);
        lemma_entry_at(o@, 1, "end"@);
        lemma_entry_at(o@, 2, "markdown_path"@);
        lemma_entry_at(o@, 3, "json_path"@);
        lemma_entry_at(o@, 4, "markdown"@);
        lemma_entry_at(o@, 5, "rows"@);
        assert("markdown"@[0] != "calendar"@[0]);
        lemma_entry_at(o@, 6, "calendar"@);
        let r = JsonValue::Object(o);
        assert forall|k: int| 0 <= k < rows.len() implies row_fields(
            #[trigger] r.item("rows"@, k),
            rows@[k],
            amounts@[k].0,
            amounts@[k].1,
        ) by {
            assert(r.item("rows"@, k) == rv[k]);
        }
        assert forall|k: int| 0 <= k < calendar.len() implies day_fields(
            #[trigger] r.item("calendar"@, k),
            calendar@[k],
        ) by {
            assert(r.item("calendar"@, k) == dv[k]);
        }
    }
    JsonValue::Object(o)
}

/// The control page.
pub const INDEX_HTML: &'static str = "<!doctype html>\n<html lang=\"zh-CN\">\n<head>\n<meta charset=\"utf-8\">\n<title>jiejin-watch</title>\n</head>\n<body>\n<h1>解禁期前大额解禁</h1>\n<form id=\"f\">\n<label>基准日 <input name=\"as_of\" placeholder=\"YYYY-MM-DD\"></label>\n<label>天数 <input name=\"days\" type=\"number\" value=\"60\"></label>\n<label>Top <input name=\"top\" type=\"number\" value=\"100\"></label>\n<label>最低市值(亿) <input name=\"min_yi\" type=\"number\" step=\"0.1\" value=\"1\"></label>\n<label>临近天数 <input name=\"near\" type=\"number\" value=\"7\"></label>\n<label>代码 <input name=\"code\"></label>\n<label>输出目录 <input name=\"output\"></label>\n<label><input name=\"holders\" type=\"checkbox\"> 股东</label>\n<button type=\"submit\">抓取</button>\n</form>\n<pre id=\"out\"></pre>\n<script>\nconst f = document.getElementById('f');\nf.addEventListener('submit', async (e) => {\n  e.preventDefault();\n  const body = {};\n  for (const el of f.elements) {\n    if (!el.name) continue;\n    if (el.type === 'checkbox') body[el.name] = el.checked;\n    else if (el.value !== '') body[el.name] = el.type === 'number' ? Number(el.value) : el.value;\n  }\n  const res = await fetch('/api/fetch', { method: 'POST', body: JSON.stringify(body) });\n  const data = await res.json();\n  document.getElementById('out').textContent = data.error ? data.error : data.markdown;\n});\n</script>\n</body>\n</html>\n";

/// The control page's HTML.
pub fn index_html() -> (r: &'static str)
    ensures
        r == INDEX_HTML,
{
    INDEX_HTML
}

} // verus!
