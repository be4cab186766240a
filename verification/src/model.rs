//! Eastmoney lockup-expiry records.
//!
//! Amounts are JSON numbers as the data center sent them; a reader that
//! computes with them takes them as `f64`.
use vstd::prelude::*;

use crate::date::{date_head, parse_datetime, spec_parse_date, Date};
use crate::json::{JsonNumber, JsonValue};
use crate::text::{chars_of, push_char, push_str, string_of};

verus! {

#[derive(Debug, Clone)]
pub struct UnlockEvent {
    pub code: String,
    pub name: String,
    pub free_date: String,
    /// 解禁数量（万股）
    pub able_free_shares_wan: JsonNumber,
    /// 实际解禁数量（万股）
    pub current_free_shares_wan: JsonNumber,
    /// 实际解禁市值（万元）
    pub lift_market_cap_wan: JsonNumber,
    /// 占解禁前流通市值比例（小数）
    pub free_ratio: JsonNumber,
    pub prev_close: Option<JsonNumber>,
    pub b20_change_pct: Option<JsonNumber>,
    pub share_type: String,
    pub holder_count: Option<u32>,
}

#[derive(Debug, Clone)]
pub struct Holder {
    pub name: String,
    pub add_listing_shares: JsonNumber,
    pub actual_listed_shares: JsonNumber,
    pub add_listing_cap: JsonNumber,
    pub lock_month: Option<JsonNumber>,
    pub share_type: String,
}

#[derive(Debug, Clone)]
pub struct RankedUnlock {
    pub rank: usize,
    pub event: UnlockEvent,
    pub days_ahead: i32,
    pub holders: Vec<Holder>,
}

// ---------------------------------------------------------------------------
// Dates and links of an event
// ---------------------------------------------------------------------------
/// The date at the start of a date-time text, if it is one.
pub open spec fn spec_free_date(free_date: Seq<char>) -> Option<Date> {
    match spec_parse_date(date_head(free_date)) {
        Ok(d) => Some(d),
        Err(_) => None,
    }
}

/// Days from `today` to the event's date, when the text starts with a date,
/// `today` is a real date and the count fits in `i32`.
pub open spec fn spec_days_ahead(free_date: Seq<char>, today: Date) -> Option<i32> {
    match spec_free_date(free_date) {
        Some(d) => if today.valid() && d.valid() && i32::MIN <= d.day_number() - today.day_number()
            <= i32::MAX {
            Some((d.day_number() - today.day_number()) as i32)
        } else {
            None
        },
        None => None,
    }
}

/// The exchange prefix of a stock code: `sh` for codes starting with 6,
/// `bj` for 8 or 4, `sz` otherwise.
pub open spec fn exchange_prefix(code: Seq<char>) -> Seq<char> {
    if code.len() > 0 && code[0] == '6' {
        "sh"@
    } else if code.len() > 0 && (code[0] == '8' || code[0] == '4') {
        "bj"@
    } else {
        "sz"@
    }
}

/// Characters that stay as they are in a URL query.
pub open spec fn url_safe(c: char) -> bool {
    ('0' <= c <= '9') || ('a' <= c <= 'z') || ('A' <= c <= 'Z') || c == '-' || c == '_' || c == '.'
}

/// The UTF-8 bytes of a character.
pub open spec fn utf8_bytes(c: char) -> Seq<u8> {
    let u = c as u32;
    if u < 0x80 {
        seq![u as u8]
    } else if u < 0x800 {
        seq![(0xc0 + u / 64) as u8, (0x80 + u % 64) as u8]
    } else if u < 0x10000 {
        seq![(0xe0 + u / 4096) as u8, (0x80 + (u / 64) % 64) as u8, (0x80 + u % 64) as u8]
    } else {
        seq![
            (0xf0 + u / 262144) as u8,
            (0x80 + (u / 4096) % 64) as u8,
            (0x80 + (u / 64) % 64) as u8,
            (0x80 + u % 64) as u8,
        ]
    }
}

pub open spec fn upper_hex_digit(n: nat) -> char {
    if n < 10 {
        (n + '0' as nat) as char
    } else {
        (n - 10 + 'A' as nat) as char
    }
}

/// `%XX` for each byte, in upper-case hexadecimal.
pub open spec fn percent_bytes(bs: Seq<u8>) -> Seq<char>
    decreases bs.len(),
{
    if bs.len() == 0 {
        Seq::empty()
    } else {
        percent_bytes(bs.drop_last()) + seq![
            '%',
            upper_hex_digit((bs.last() / 16) as nat),
            upper_hex_digit((bs.last() % 16) as nat),
        ]
    }
}

/// Percent-encoding of every character that is not a letter, digit, `-`,
/// `_` or `.`.
pub open spec fn url_encode(s: Seq<char>) -> Seq<char>
    decreases s.len(),
{
    if s.len() == 0 {
        Seq::empty()
    } else {
        url_encode(s.drop_last()) + if url_safe(s.last()) {
            seq![s.last()]
        } else {
            percent_bytes(utf8_bytes(s.last()))
        }
    }
}

fn upper_hex_char(n: u8) -> (c: char)
    requires
        n < 16,
    ensures
        c == upper_hex_digit(n as nat),
{
    if n < 10 {
        (n + 48) as char
    } else {
        (n - 10 + 65) as char
    }
}

fn push_percent(out: &mut String, b: u8)
    ensures
        final(out)@ == old(out)@ + seq!['%', upper_hex_digit((b / 16) as nat), upper_hex_digit((b % 16) as nat)],
{
    push_char(out, '%');
    push_char(out, upper_hex_char(b / 16));
    push_char(out, upper_hex_char(b % 16));
}

fn utf8_of(c: char) -> (r: Vec<u8>)
    ensures
        r@ == utf8_bytes(c),
{
    let u = c as u32;
    let mut r: Vec<u8> = Vec::new();
    if u < 0x80 {
        r.push(u as u8);
    } else if u < 0x800 {
        r.push((0xc0 + u / 64) as u8);
        r.push((0x80 + u % 64) as u8);
    } else if u < 0x10000 {
        r.push((0xe0 + u / 4096) as u8);
        r.push((0x80 + (u / 64) % 64) as u8);
        r.push((0x80 + u % 64) as u8);
    } else {
        assert(u <= 0x10ffff);
        r.push((0xf0 + u / 262144) as u8);
        r.push((0x80 + (u / 4096) % 64) as u8);
        r.push((0x80 + (u / 64) % 64) as u8);
        r.push((0x80 + u % 64) as u8);
    }
    assert(r@ =~= utf8_bytes(c));
    r
}

/// Percent-encodes `value` for a URL query: letters, digits, `-`, `_` and
/// `.` stay, every other character becomes its UTF-8 bytes as `%XX`.
pub fn urlencoding_minimal(value: &str) -> (r: String)
    ensures
        r@ == url_encode(value@),
{
    let v = chars_of(value);
    let mut out = String::new();
    let mut i: usize = 0;
    while i < v.len()
        invariant
            0 <= i <= v.len(),
            out@ == url_encode(v@.take(i as int)),
        decreases v.len() - i,
    {
        let ch = v[i];
        assert(v@.take(i + 1).drop_last() == v@.take(i as int));
        let ghost before = out@;
        if ('0' <= ch && ch <= '9') || ('a' <= ch && ch <= 'z') || ('A' <= ch && ch <= 'Z') || ch
            == '-' || ch == '_' || ch == '.' {
            push_char(&mut out, ch);
        } else {
            let bytes = utf8_of(ch);
            let mut k: usize = 0;
            while k < bytes.len()
                invariant
                    0 <= k <= bytes.len(),
                    out@ == before + percent_bytes(bytes@.take(k as int)),
                decreases bytes.len() - k,
            {
                push_percent(&mut out, bytes[k]);
                assert(bytes@.take(k + 1).drop_last() == bytes@.take(k as int));
                k = k + 1;
            }
            assert(bytes@.take(bytes.len() as int) == bytes@);
        }
        i = i + 1;
    }
    assert(v@.take(v.len() as int) == v@);
    out
}

impl UnlockEvent {
    /// The date of the unlock, if its text starts with one.
    pub fn free_date_parsed(&self) -> (r: Option<Date>)
        ensures
            r == spec_free_date(self.free_date@),
    {
        parse_datetime(self.free_date.as_str())
    }

    /// Days from `today` until the unlock (negative when it is past).
    pub fn days_ahead(&self, today: Date) -> (r: Option<i32>)
        ensures
            r == spec_days_ahead(self.free_date@, today),
    {
        match self.free_date_parsed() {
            Some(d) => today.checked_days_until(d),
            None => None,
        }
    }

    pub open spec fn spec_quote_url(self) -> Seq<char> {
        "https://quote.eastmoney.com/"@ + exchange_prefix(self.code@) + self.code@ + ".html"@
    }

    /// The stock's quote page.
    pub fn quote_url(&self) -> (r: String)
        ensures
            r@ == self.spec_quote_url(),
    {
        let code = chars_of(self.code.as_str());
        let prefix = if code.len() > 0 && code[0] == '6' {
            "sh"
        } else if code.len() > 0 && (code[0] == '8' || code[0] == '4') {
            "bj"
        } else {
            "sz"
        };
        let mut out = String::new();
        push_str(&mut out, "https://quote.eastmoney.com/");
        push_str(&mut out, prefix);
        push_str(&mut out, self.code.as_str());
        push_str(&mut out, ".html");
        out
    }

    pub open spec fn spec_unlock_url(self) -> Seq<char> {
        "https://data.eastmoney.com/dxf/q/"@ + self.code@ + ".html"@
    }

    /// The stock's lockup-expiry page.
    pub fn unlock_url(&self) -> (r: String)
        ensures
            r@ == self.spec_unlock_url(),
    {
        let mut out = String::new();
        push_str(&mut out, "https://data.eastmoney.com/dxf/q/");
        push_str(&mut out, self.code.as_str());
        push_str(&mut out, ".html");
        out
    }

    pub open spec fn spec_notice_url(self) -> Seq<char> {
        "https://data.eastmoney.com/notices/stock/"@ + self.code@ + ".html"@
    }

    /// The stock's announcements page.
    pub fn notice_url(&self) -> (r: String)
        ensures
            r@ == self.spec_notice_url(),
    {
        let mut out = String::new();
        push_str(&mut out, "https://data.eastmoney.com/notices/stock/");
        push_str(&mut out, self.code.as_str());
        push_str(&mut out, ".html");
        out
    }

    pub open spec fn spec_news_url(self) -> Seq<char> {
        "https://so.eastmoney.com/news/s?keyword="@ + url_encode(self.name@ + " 解禁"@)
    }

    /// A news search for the stock's name and 解禁.
    pub fn news_url(&self) -> (r: String)
        ensures
            r@ == self.spec_news_url(),
    {
        let mut query = String::new();
        push_str(&mut query, self.name.as_str());
        push_str(&mut query, " 解禁");
        let encoded = urlencoding_minimal(query.as_str());
        let mut out = String::new();
        push_str(&mut out, "https://so.eastmoney.com/news/s?keyword=");
        push_str(&mut out, encoded.as_str());
        out
    }
}

// ---------------------------------------------------------------------------
// Reading data-center rows
// ---------------------------------------------------------------------------
pub struct UnlockEventView {
    pub code: Seq<char>,
    pub name: Seq<char>,
    pub free_date: Seq<char>,
    pub able_free_shares_wan: JsonNumber,
    pub current_free_shares_wan: JsonNumber,
    pub lift_market_cap_wan: JsonNumber,
    pub free_ratio: JsonNumber,
    pub prev_close: Option<JsonNumber>,
    pub b20_change_pct: Option<JsonNumber>,
    pub share_type: Seq<char>,
    pub holder_count: Option<u32>,
}

impl UnlockEvent {
    pub open spec fn view(&self) -> UnlockEventView {
        UnlockEventView {
            code: self.code@,
            name: self.name@,
            free_date: self.free_date@,
            able_free_shares_wan: self.able_free_shares_wan,
            current_free_shares_wan: self.current_free_shares_wan,
            lift_market_cap_wan: self.lift_market_cap_wan,
            free_ratio: self.free_ratio,
            prev_close: self.prev_close,
            b20_change_pct: self.b20_change_pct,
            share_type: self.share_type@,
            holder_count: self.holder_count,
        }
    }
}

pub open spec fn events_view(v: Seq<UnlockEvent>) -> Seq<UnlockEventView> {
    v.map_values(|e: UnlockEvent| e.view())
}

// ---------------------------------------------------------------------------
// Ranking
// ---------------------------------------------------------------------------
/// The rows that a ranking keeps from the first `n` events, in order, each
/// with its days ahead: those whose free date is today or later and that
/// are large enough (`large[i]` for `events[i]`).
pub open spec fn kept_rows(events: Seq<UnlockEventView>, large: Seq<bool>, today: Date, n: nat) -> Seq<
    (UnlockEventView, i32),
>
    decreases n,
{
    if n == 0 {
        Seq::empty()
    } else {
        let rest = kept_rows(events, large, today, (n - 1) as nat);
        let e = events[n - 1];
        match spec_days_ahead(e.free_date, today) {
            Some(d) => if d >= 0 && large[n - 1] {
                rest.push((e, d))
            } else {
                rest
            },
            None => rest,
        }
    }
}

/// The rows kept from fewer events are the first of those kept from more.
pub proof fn lemma_kept_rows_prefix(
    events: Seq<UnlockEventView>,
    large: Seq<bool>,
    today: Date,
    k: nat,
    n: nat,
)
    requires
        k <= n,
    ensures
        kept_rows(events, large, today, k).len() <= kept_rows(events, large, today, n).len(),
        kept_rows(events, large, today, n).take(kept_rows(events, large, today, k).len() as int)
            == kept_rows(events, large, today, k),
    decreases n - k,
{
    if k < n {
        lemma_kept_rows_prefix(events, large, today, k, (n - 1) as nat);
        let a = kept_rows(events, large, today, k);
        let b = kept_rows(events, large, today, (n - 1) as nat);
        let c = kept_rows(events, large, today, n);
        assert(c.take(b.len() as int) == b);
        assert(c.take(a.len() as int) == b.take(a.len() as int));
    }
}

/// The rows a ranking keeps are exactly the large enough events that unlock
/// today or later, each with its days ahead: an event that is large enough
/// and `d >= 0` days ahead (0 when it unlocks today) is kept with `d`, and
/// every kept row is such an event.
pub proof fn lemma_kept_rows_are_due_large_events(
    events: Seq<UnlockEventView>,
    large: Seq<bool>,
    today: Date,
    n: nat,
)
    requires
        n <= events.len(),
        n <= large.len(),
    ensures
        forall|i: int, d: i32|
            0 <= i < n && large[i] && spec_days_ahead(events[i].free_date, today) == Some(d) && d >= 0
                ==> #[trigger] kept_rows(events, large, today, n).contains((events[i], d)),
        forall|i: int|
            0 <= i < n && large[i] && today.valid() && spec_free_date(events[i].free_date) == Some(
                today,
            ) ==> #[trigger] kept_rows(events, large, today, n).contains((events[i], 0i32)),
        forall|j: int|
            0 <= j < kept_rows(events, large, today, n).len() ==> exists|i: int|
                0 <= i < n && large[i] && #[trigger] kept_rows(events, large, today, n)[j].0 == events[i]
                    && spec_days_ahead(events[i].free_date, today) == Some(
                    kept_rows(events, large, today, n)[j].1,
                ) && kept_rows(events, large, today, n)[j].1 >= 0,
    decreases n,
{
    if n > 0 {
        let m = (n - 1) as nat;
        lemma_kept_rows_are_due_large_events(events, large, today, m);
        let rest = kept_rows(events, large, today, m);
        let all = kept_rows(events, large, today, n);
        assert(forall|x: (UnlockEventView, i32)| rest.contains(x) ==> all.contains(x)) by {
            assert forall|x: (UnlockEventView, i32)| rest.contains(x) implies all.contains(x) by {
                let j = choose|j: int| 0 <= j < rest.len() && rest[j] == x;
                match spec_days_ahead(events[m as int].free_date, today) {
                    Some(d) => if d >= 0 && large[m as int] {
                        assert(all[j] == rest[j]);
                    },
                    None => {},
                }
            }
        }
        assert forall|i: int, d: i32|
            0 <= i < n && large[i] && spec_days_ahead(events[i].free_date, today) == Some(d) && d >= 0
                implies #[trigger] all.contains((events[i], d)) by {
            if i < m {
                assert(rest.contains((events[i], d)));
            } else {
                assert(all[rest.len() as int] == (events[i], d));
            }
        }
        assert forall|i: int|
            0 <= i < n && large[i] && today.valid() && spec_free_date(events[i].free_date) == Some(today)
                implies #[trigger] all.contains((events[i], 0i32)) by {
            assert(spec_days_ahead(events[i].free_date, today) == Some(0i32));
            assert(all.contains((events[i], 0i32)));
        }
        assert forall|j: int| 0 <= j < all.len() implies exists|i: int|
            0 <= i < n && large[i] && #[trigger] all[j].0 == events[i] && spec_days_ahead(
                events[i].free_date,
                today,
            ) == Some(all[j].1) && all[j].1 >= 0 by {
            if j < rest.len() {
                match spec_days_ahead(events[m as int].free_date, today) {
                    Some(d) => if d >= 0 && large[m as int] {
                        assert(all[j] == rest[j]);
                    },
                    None => {},
                }
                let i = choose|i: int|
                    0 <= i < m && large[i] && #[trigger] rest[j].0 == events[i] && spec_days_ahead(
                        events[i].free_date,
                        today,
                    ) == Some(rest[j].1) && rest[j].1 >= 0;
                assert(all[j].0 == events[i]);
            } else {
                assert(all[j].0 == events[m as int]);
            }
        }
    }
}

/// Ranks events that are already in ranking order (largest unlock first):
/// keeps those not yet past that are large enough (`large[i]` for
/// `events[i]`), numbers the first `top` of them from 1, and notes the days
/// until each unlocks.
pub fn rank_sorted(events: Vec<UnlockEvent>, large: &[bool], today: Date, top: usize) -> (r: Vec<
    RankedUnlock,
>)
    requires
        events.len() == large.len(),
    ensures
        ({
            let kept = kept_rows(events_view(events@), large@, today, events.len() as nat);
            &&& r.len() == if kept.len() < top {
                kept.len() as int
            } else {
                top as int
            }
            &&& forall|i: int|
                0 <= i < r.len() ==> {
                    &&& (#[trigger] r@[i]).rank == i + 1
                    &&& r@[i].event.view() == kept[i].0
                    &&& r@[i].days_ahead == kept[i].1
                    &&& r@[i].holders.len() == 0
                }
        }),
        forall|j: int|
            0 <= j < r.len() ==> #[trigger] r@[j].days_ahead >= 0 && exists|i: int|
                0 <= i < events.len() && large@[i] && r@[j].event.view() == events@[i].view()
                    && spec_days_ahead(events@[i].free_date@, today) == Some(r@[j].days_ahead),
        forall|i: int|
            0 <= i < events.len() && large@[i] && #[trigger] spec_days_ahead(events@[i].free_date@, today)
                is Some && spec_days_ahead(events@[i].free_date@, today)->0 >= 0 && kept_rows(
                events_view(events@),
                large@,
                today,
                events.len() as nat,
            ).len() <= top ==> exists|j: int|
                0 <= j < r.len() && r@[j].event.view() == events@[i].view() && r@[j].days_ahead
                    == spec_days_ahead(events@[i].free_date@, today)->0,
{
    proof {
        lemma_kept_rows_are_due_large_events(events_view(events@), large@, today, events.len() as nat);
    }
    let ghost all = events_view(events@);
    let ghost original = events@;
    let ghost n = events.len() as nat;
    let mut rest = events;
    let mut rows: Vec<RankedUnlock> = Vec::new();
    let mut k: usize = 0;
    while rest.len() > 0 && rows.len() < top
        invariant
            k + rest.len() == n == large.len() == all.len(),
            events_view(rest@) == all.skip(k as int),
            rows.len() <= top,
            rows.len() == kept_rows(all, large@, today, k as nat).len(),
            forall|i: int|
                0 <= i < rows.len() ==> {
                    &&& (#[trigger] rows@[i]).rank == i + 1
                    &&& rows@[i].event.view() == kept_rows(all, large@, today, k as nat)[i].0
                    &&& rows@[i].days_ahead == kept_rows(all, large@, today, k as nat)[i].1
                    &&& rows@[i].holders.len() == 0
                },
        decreases rest.len(),
    {
        let ghost before = rest@;
        let event = rest.remove(0);
        proof {
            assert(events_view(before)[0] == event.view());
            assert(all[k as int] == events_view(before)[0]);
            assert(rest@ == before.remove(0));
            assert forall|j: int| 0 <= j < rest.len() implies #[trigger] events_view(rest@)[j]
                == all.skip(k + 1)[j] by {
                assert(rest@[j] == before[j + 1]);
                assert(events_view(before)[j + 1] == all[k + 1 + j]);
            }
            assert(events_view(rest@) =~= all.skip(k + 1));
        }
        match event.days_ahead(today) {
            Some(days) => {
                if days >= 0 && large[k] {
                    let rank = rows.len() + 1;
                    rows.push(RankedUnlock { rank, event, days_ahead: days, holders: Vec::new() });
                }
            },
            None => {},
        }
        k = k + 1;
    }
    proof {
        lemma_kept_rows_prefix(all, large@, today, k as nat, n);
        if rest.len() == 0 {
            assert(k == n);
        }
        let kept = kept_rows(all, large@, today, n);
        assert forall|j: int| 0 <= j < rows.len() implies #[trigger] rows@[j].days_ahead >= 0 && exists|i: int|
            0 <= i < original.len() && large@[i] && rows@[j].event.view() == original[i].view()
                && spec_days_ahead(original[i].free_date@, today) == Some(rows@[j].days_ahead) by {
            assert(rows@[j].event.view() == kept[j].0);
            let i = choose|i: int|
                0 <= i < n && large@[i] && #[trigger] kept[j].0 == all[i] && spec_days_ahead(
                    all[i].free_date,
                    today,
                ) == Some(kept[j].1) && kept[j].1 >= 0;
            assert(all[i] == original[i].view());
        }
        assert forall|i: int|
            0 <= i < original.len() && large@[i] && #[trigger] spec_days_ahead(original[i].free_date@, today)
                is Some && spec_days_ahead(original[i].free_date@, today)->0 >= 0 && kept.len() <= top
                implies exists|j: int|
                0 <= j < rows.len() && rows@[j].event.view() == original[i].view() && rows@[j].days_ahead
                    == spec_days_ahead(original[i].free_date@, today)->0 by {
            let d = spec_days_ahead(original[i].free_date@, today)->0;
            assert(all[i] == original[i].view());
            assert(kept.contains((all[i], d)));
            let j = choose|j: int| 0 <= j < kept.len() && kept[j] == (all[i], d);
            assert(rows@[j].event.view() == kept[j].0);
        }
    }
    rows
}

pub struct HolderView {
    pub name: Seq<char>,
    pub add_listing_shares: JsonNumber,
    pub actual_listed_shares: JsonNumber,
    pub add_listing_cap: JsonNumber,
    pub lock_month: Option<JsonNumber>,
    pub share_type: Seq<char>,
}

impl Holder {
    pub open spec fn view(&self) -> HolderView {
        HolderView {
            name: self.name@,
            add_listing_shares: self.add_listing_shares,
            actual_listed_shares: self.actual_listed_shares,
            add_listing_cap: self.add_listing_cap,
            lock_month: self.lock_month,
            share_type: self.share_type@,
        }
    }
}

/// The text under `key`, if it is a string.
pub open spec fn row_text(row: JsonValue, key: Seq<char>) -> Option<Seq<char>> {
    match row.field(key) {
        Some(v) => v.text(),
        None => None,
    }
}

/// The number under `key`, if it is a number.
pub open spec fn row_number(row: JsonValue, key: Seq<char>) -> Option<JsonNumber> {
    match row.field(key) {
        Some(v) => v.number(),
        None => None,
    }
}

/// The number under `key`, or 0.
pub open spec fn row_amount(row: JsonValue, key: Seq<char>) -> JsonNumber {
    match row_number(row, key) {
        Some(n) => n,
        None => JsonNumber::Int(0),
    }
}

pub open spec fn text_or_empty(t: Option<Seq<char>>) -> Seq<char> {
    match t {
        Some(s) => s,
        None => Seq::empty(),
    }
}

/// An unlock event from a `RPT_LIFT_STAGE` row: the code and the date are
/// required; missing amounts count as 0, missing texts as empty.
pub open spec fn spec_parse_event(row: JsonValue) -> Option<UnlockEventView> {
    match (row_text(row, "SECURITY_CODE"@), row_text(row, "FREE_DATE"@)) {
        (Some(code), Some(free_date)) => Some(
            UnlockEventView {
                code,
                name: text_or_empty(row_text(row, "SECURITY_NAME_ABBR"@)),
                free_date,
                able_free_shares_wan: row_amount(row, "ABLE_FREE_SHARES"@),
                current_free_shares_wan: row_amount(row, "CURRENT_FREE_SHARES"@),
                lift_market_cap_wan: row_amount(row, "LIFT_MARKET_CAP"@),
                free_ratio: row_amount(row, "FREE_RATIO"@),
                prev_close: row_number(row, "NEW"@),
                b20_change_pct: row_number(row, "B20_ADJCHRATE"@),
                share_type: text_or_empty(row_text(row, "FREE_SHARES_TYPE"@)),
                holder_count: match row.field("BATCH_HOLDER_NUM"@) {
                    Some(v) => match v.spec_as_u64() {
                        Some(n) => Some(n as u32),
                        None => None,
                    },
                    None => None,
                },
            },
        ),
        _ => None,
    }
}

fn get_text(row: &JsonValue, key: &str) -> (r: Option<String>)
    ensures
        match r {
            Some(s) => row_text(*row, key@) == Some(s@),
            None => row_text(*row, key@) is None,
        },
{
    match row.get(key) {
        Some(v) => match v.as_str() {
            Some(s) => Some(String::from_str(s)),
            None => None,
        },
        None => None,
    }
}

fn get_text_or_empty(row: &JsonValue, key: &str) -> (r: String)
    ensures
        r@ == text_or_empty(row_text(*row, key@)),
{
    match get_text(row, key) {
        Some(s) => s,
        None => String::new(),
    }
}

fn get_number(row: &JsonValue, key: &str) -> (r: Option<JsonNumber>)
    ensures
        r == row_number(*row, key@),
{
    match row.get(key) {
        Some(v) => v.as_number(),
        None => None,
    }
}

fn get_amount(row: &JsonValue, key: &str) -> (r: JsonNumber)
    ensures
        r == row_amount(*row, key@),
{
    match get_number(row, key) {
        Some(n) => n,
        None => JsonNumber::Int(0),
    }
}

/// Reads an unlock event from a data-center row.
pub fn parse_event(row: &JsonValue) -> (r: Option<UnlockEvent>)
    ensures
        match r {
            Some(e) => spec_parse_event(*row) == Some(e.view()),
            None => spec_parse_event(*row) is None,
        },
{
    let code = match get_text(row, "SECURITY_CODE") {
        Some(c) => c,
        None => {
            return None;
        },
    };
    let name = get_text_or_empty(row, "SECURITY_NAME_ABBR");
    let free_date = match get_text(row, "FREE_DATE") {
        Some(d) => d,
        None => {
            return None;
        },
    };
    let holder_count = match row.get("BATCH_HOLDER_NUM") {
        Some(v) => match v.as_u64() {
            Some(n) => Some(n as u32),
            None => None,
        },
        None => None,
    };
    Some(
        UnlockEvent {
            code,
            name,
            free_date,
            able_free_shares_wan: get_amount(row, "ABLE_FREE_SHARES"),
            current_free_shares_wan: get_amount(row, "CURRENT_FREE_SHARES"),
            lift_market_cap_wan: get_amount(row, "LIFT_MARKET_CAP"),
            free_ratio: get_amount(row, "FREE_RATIO"),
            prev_close: get_number(row, "NEW"),
            b20_change_pct: get_number(row, "B20_ADJCHRATE"),
            share_type: get_text_or_empty(row, "FREE_SHARES_TYPE"),
            holder_count,
        },
    )
}

/// A holder from a `RPT_LIFT_GD` row: the name is required; missing
/// amounts count as 0, a missing type as empty.
pub open spec fn spec_parse_holder(row: JsonValue) -> Option<HolderView> {
    match row_text(row, "LIMITED_HOLDER_NAME"@) {
        Some(name) => Some(
            HolderView {
                name,
                add_listing_shares: row_amount(row, "ADD_LISTING_SHARES"@),
                actual_listed_shares: row_amount(row, "ACTUAL_LISTED_SHARES"@),
                add_listing_cap: row_amount(row, "ADD_LISTING_CAP"@),
                lock_month: row_number(row, "LOCK_MONTH"@),
                share_type: text_or_empty(row_text(row, "FREE_SHARES_TYPE"@)),
            },
        ),
        None => None,
    }
}

/// Reads a holder from a data-center row.
pub fn parse_holder(row: &JsonValue) -> (r: Option<Holder>)
    ensures
        match r {
            Some(h) => spec_parse_holder(*row) == Some(h.view()),
            None => spec_parse_holder(*row) is None,
        },
{
    let name = match get_text(row, "LIMITED_HOLDER_NAME") {
        Some(n) => n,
        None => {
            return None;
        },
    };
    Some(
        Holder {
            name,
            add_listing_shares: get_amount(row, "ADD_LISTING_SHARES"),
            actual_listed_shares: get_amount(row, "ACTUAL_LISTED_SHARES"),
            add_listing_cap: get_amount(row, "ADD_LISTING_CAP"),
            lock_month: get_number(row, "LOCK_MONTH"),
            share_type: get_text_or_empty(row, "FREE_SHARES_TYPE"),
        },
    )
}

} // verus!
