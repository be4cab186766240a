//! The unlock index as Markdown. Amounts are written out by the caller (to
//! two decimals, holders' figures to whole numbers); everything else is laid
//! out here.
use vstd::prelude::*;

use crate::date::{parse_datetime, Date};
use crate::model::{spec_free_date, Holder, RankedUnlock};
use crate::project::{join, join_path};
use crate::text::{decimal, format_padded, push_decimal, push_padded, push_str};

verus! {

/// A ranked row's amounts, written out: the unlock's value in 亿元 and its
/// share of the float in percent.
#[derive(Debug, Clone)]
pub struct RowFigures {
    pub lift_yi: String,
    pub free_ratio_pct: String,
}

/// A holder's amounts, written out: shares, value in 元, and the lock-up in
/// months (`-` when unknown).
#[derive(Debug, Clone)]
pub struct HolderFigures {
    pub shares: String,
    pub cap: String,
    pub lock_month: String,
}

/// A day of the market-wide unlock calendar: its date text, and the number
/// of companies and the value in 亿元, written out.
#[derive(Debug, Clone)]
pub struct CalendarLine {
    pub date: String,
    pub org_num: String,
    pub lift_yi: String,
}

// ---------------------------------------------------------------------------
// Dates and names
// ---------------------------------------------------------------------------
/// A date-time text as `YYYY-MM-DD` when it starts with a date, else as it
/// is.
pub open spec fn spec_format_date(value: Seq<char>) -> Seq<char> {
    match spec_free_date(value) {
        Some(d) => d.spec_to_string(),
        None => value,
    }
}

/// A date-time text as `YYYY-MM-DD` when it starts with a date, else as it
/// is.
pub fn format_date(value: &str) -> (r: String)
    ensures
        r@ == spec_format_date(value@),
{
    match parse_datetime(value) {
        Some(d) => d.to_string(),
        None => String::from_str(value),
    }
}

/// The name of the report files, without extension.
pub open spec fn spec_report_stem(as_of: Date, rows: nat) -> Seq<char> {
    as_of.spec_compact() + "-大额解禁Top"@ + decimal(rows) + "图谱索引_"@ + decimal(rows) + "只"@
}

/// The name of the report files, without extension:
/// `YYYYMMDD-大额解禁Top{n}图谱索引_{n}只`.
pub fn report_stem(as_of: Date, rows: usize) -> (r: String)
    ensures
        r@ == spec_report_stem(as_of, rows as nat),
{
    let mut out = as_of.compact();
    push_str(&mut out, "-大额解禁Top");
    push_decimal(&mut out, rows as u64);
    push_str(&mut out, "图谱索引_");
    push_decimal(&mut out, rows as u64);
    push_str(&mut out, "只");
    out
}

/// Where the Markdown and JSON reports go inside `output_dir`.
pub open spec fn spec_report_paths(output_dir: Seq<char>, as_of: Date, rows: nat) -> (Seq<char>, Seq<char>) {
    (
        join_path(output_dir, spec_report_stem(as_of, rows) + ".md"@),
        join_path(output_dir, spec_report_stem(as_of, rows) + ".json"@),
    )
}

/// The paths of the Markdown and JSON reports inside `output_dir`.
pub fn report_paths(output_dir: &str, as_of: Date, rows: usize) -> (r: (String, String))
    ensures
        (r.0@, r.1@) == spec_report_paths(output_dir@, as_of, rows as nat),
{
    let mut md = report_stem(as_of, rows);
    push_str(&mut md, ".md");
    let mut json = report_stem(as_of, rows);
    push_str(&mut json, ".json");
    (join(output_dir, md.as_str()), join(output_dir, json.as_str()))
}

// ---------------------------------------------------------------------------
// The report's parts
// ---------------------------------------------------------------------------
/// The title and the notes under it.
pub open spec fn spec_report_head(
    title_date: Date,
    start: Date,
    end: Date,
    min_yi: Seq<char>,
    rows: nat,
) -> Seq<char> {
    "# "@ + spec_report_stem(title_date, rows) + "\n\n"@
        + "- 数据源: [东方财富 · 限售股解禁](https://data.eastmoney.com/dxf/detail.html)\n"@
        + "- 窗口: "@ + start.spec_to_string() + " ～ "@ + end.spec_to_string()
        + "（解禁期前，含当日）\n"@ + "- 门槛: 解禁市值 ≥ "@ + min_yi + " 亿元\n"@ + "- 抓取日: "@
        + title_date.spec_to_string() + "（北京时间）\n"@
        + "- 说明: 市值来自东财公开 JSON（万元），本表换算为亿元。链接指向个股解禁页、公告页与「简称+解禁」资讯搜索。\n\n"@
}

/// A row unlocks within `near_days` days from today (today included).
pub open spec fn is_near(row: RankedUnlock, near_days: u32) -> bool {
    0 <= row.days_ahead && row.days_ahead <= near_days
}

/// A row of the table of near unlocks.
pub open spec fn near_line(row: RankedUnlock, fig: RowFigures) -> Seq<char> {
    "| "@ + format_padded(row.days_ahead as int, 0) + " | "@ + row.event.code@ + " | "@
        + row.event.name@ + " | "@ + spec_format_date(row.event.free_date@) + " | "@ + fig.lift_yi@
        + " | "@ + row.event.share_type@ + " |\n"@
}

/// The table rows of the near unlocks among the first `n` rows.
pub open spec fn near_lines(rows: Seq<RankedUnlock>, figs: Seq<RowFigures>, near_days: u32, n: nat) -> Seq<
    char,
>
    decreases n,
{
    if n == 0 {
        Seq::empty()
    } else {
        near_lines(rows, figs, near_days, (n - 1) as nat) + if is_near(rows[n - 1], near_days) {
            near_line(rows[n - 1], figs[n - 1])
        } else {
            Seq::empty()
        }
    }
}

/// The section of near unlocks, present when some row is near.
pub open spec fn near_section(rows: Seq<RankedUnlock>, figs: Seq<RowFigures>, near_days: u32) -> Seq<
    char,
> {
    if exists|i: int| 0 <= i < rows.len() && is_near(#[trigger] rows[i], near_days) {
        "## 解禁临近（"@ + decimal(near_days as nat) + " 天内）\n\n"@
            + "| 距今 | 代码 | 简称 | 解禁日 | 解禁市值(亿) | 类型 |\n| ---: | --- | --- | --- | ---: | --- |\n"@
            + near_lines(rows, figs, near_days, rows.len()) + "\n"@
    } else {
        Seq::empty()
    }
}

/// The title of the table of near unlocks.
pub open spec fn near_title(near_days: u32) -> Seq<char> {
    "## 解禁临近（"@ + decimal(near_days as nat) + " 天内）\n\n"@
}

/// Where the line of a near row stands among the near lines of the first
/// `n` rows.
proof fn near_line_offset(rows: Seq<RankedUnlock>, figs: Seq<RowFigures>, near_days: u32, n: nat, i: int) -> (k: int)
    requires
        0 <= i < n <= rows.len(),
        0 <= rows[i].days_ahead,
        rows[i].days_ahead <= near_days,
    ensures
        0 <= k,
        k + near_line(rows[i], figs[i]).len() <= near_lines(rows, figs, near_days, n).len(),
        near_lines(rows, figs, near_days, n).subrange(k, k + near_line(rows[i], figs[i]).len())
            == near_line(rows[i], figs[i]),
    decreases n,
{
    let before = near_lines(rows, figs, near_days, (n - 1) as nat);
    let all = near_lines(rows, figs, near_days, n);
    let line = near_line(rows[i], figs[i]);
    if i == n - 1 {
        assert(all == before + line);
        assert(all.subrange(before.len() as int, (before.len() + line.len()) as int) =~= line);
        before.len() as int
    } else {
        let k = near_line_offset(rows, figs, near_days, (n - 1) as nat, i);
        assert(all.subrange(k, k + line.len()) =~= before.subrange(k, k + line.len()));
        k
    }
}

/// Every row that unlocks between today and `near_days` days from now
/// (today included) is listed in the table of near unlocks, which then
/// stands under its title; when no row does, there is no such table.
pub proof fn lemma_near_section_lists_due_rows(
    rows: Seq<RankedUnlock>,
    figs: Seq<RowFigures>,
    near_days: u32,
)
    ensures
        forall|i: int|
            0 <= i < rows.len() && 0 <= #[trigger] rows[i].days_ahead && rows[i].days_ahead <= near_days
                ==> {
                let sec = near_section(rows, figs, near_days);
                let line = near_line(rows[i], figs[i]);
                &&& sec.len() >= near_title(near_days).len()
                &&& sec.subrange(0, near_title(near_days).len() as int) == near_title(near_days)
                &&& exists|k: int|
                    0 <= k && k + line.len() <= sec.len() && #[trigger] sec.subrange(k, k + line.len())
                        == line
            },
        (forall|i: int|
            0 <= i < rows.len() ==> #[trigger] rows[i].days_ahead < 0 || rows[i].days_ahead > near_days)
            ==> near_section(rows, figs, near_days) == Seq::<char>::empty(),
{
    let title = near_title(near_days);
    assert forall|i: int|
        0 <= i < rows.len() && 0 <= #[trigger] rows[i].days_ahead && rows[i].days_ahead <= near_days
            implies {
            let sec = near_section(rows, figs, near_days);
            let line = near_line(rows[i], figs[i]);
            &&& sec.len() >= title.len()
            &&& sec.subrange(0, title.len() as int) == title
            &&& exists|k: int|
                0 <= k && k + line.len() <= sec.len() && #[trigger] sec.subrange(k, k + line.len())
                    == line
        } by {
        assert(is_near(rows[i], near_days));
        let sec = near_section(rows, figs, near_days);
        let line = near_line(rows[i], figs[i]);
        let table = "| 距今 | 代码 | 简称 | 解禁日 | 解禁市值(亿) | 类型 |\n| ---: | --- | --- | --- | ---: | --- |\n"@;
        let lines = near_lines(rows, figs, near_days, rows.len());
        assert(sec == title + table + lines + "\n"@);
        assert(sec.subrange(0, title.len() as int) =~= title);
        let k = near_line_offset(rows, figs, near_days, rows.len(), i);
        let off = title.len() + table.len() + k;
        assert(sec.subrange(off, off + line.len()) =~= lines.subrange(k, k + line.len()));
    }
    if forall|i: int|
        0 <= i < rows.len() ==> #[trigger] rows[i].days_ahead < 0 || rows[i].days_ahead > near_days {
        assert(!exists|i: int| 0 <= i < rows.len() && is_near(#[trigger] rows[i], near_days));
    }
}

/// The report lists every row that unlocks between today and `near_days`
/// days from now (today included) under the title of the near unlocks.
#[verifier::rlimit(100)]
#[verifier::spinoff_prover]
pub proof fn lemma_report_lists_due_rows(
    title_date: Date,
    start: Date,
    end: Date,
    min_yi: Seq<char>,
    near_days: u32,
    rows: Seq<RankedUnlock>,
    figs: Seq<RowFigures>,
    holder_figs: Seq<Vec<HolderFigures>>,
    calendar: Seq<CalendarLine>,
    i: int,
)
    requires
        0 <= i < rows.len(),
        0 <= rows[i].days_ahead,
        rows[i].days_ahead <= near_days,
    ensures
        ({
            let report = spec_render_markdown(
                title_date,
                start,
                end,
                min_yi,
                near_days,
                rows,
                figs,
                holder_figs,
                calendar,
            );
            let line = near_line(rows[i], figs[i]);
            let title = near_title(near_days);
            &&& exists|k: int|
                0 <= k && k + title.len() <= report.len() && #[trigger] report.subrange(k, k + title.len())
                    == title
            &&& exists|k: int|
                0 <= k && k + line.len() <= report.len() && #[trigger] report.subrange(k, k + line.len())
                    == line
        }),
{
    lemma_near_section_lists_due_rows(rows, figs, near_days);
    let head = spec_report_head(title_date, start, end, min_yi, rows.len());
    let sec = near_section(rows, figs, near_days);
    let tail = calendar_section(calendar) + main_section(rows, figs) + holders_section(rows, holder_figs)
        + "\n"@;
    let report = spec_render_markdown(title_date, start, end, min_yi, near_days, rows, figs, holder_figs, calendar);
    assert(report =~= head + sec + tail);
    let line = near_line(rows[i], figs[i]);
    let title = near_title(near_days);
    assert(0 <= rows[i].days_ahead);
    let k = choose|k: int| 0 <= k && k + line.len() <= sec.len() && #[trigger] sec.subrange(k, k + line.len()) == line;
    let h = head.len() as int;
    let ll = line.len() as int;
    let tl = title.len() as int;
    assert(report.subrange(h + k, h + k + ll) =~= sec.subrange(k, k + ll));
    assert(report.subrange(h, h + tl) =~= sec.subrange(0, tl));
}

/// A row of the calendar table.
pub open spec fn calendar_line(day: CalendarLine) -> Seq<char> {
    "| "@ + spec_format_date(day.date@) + " | "@ + day.org_num@ + " | "@ + day.lift_yi@ + " |\n"@
}

/// The calendar table's rows for the first `n` days.
pub open spec fn calendar_lines(days: Seq<CalendarLine>, n: nat) -> Seq<char>
    decreases n,
{
    if n == 0 {
        Seq::empty()
    } else {
        calendar_lines(days, (n - 1) as nat) + calendar_line(days[n - 1])
    }
}

/// The calendar section, present when there are days.
pub open spec fn calendar_section(days: Seq<CalendarLine>) -> Seq<char> {
    if days.len() > 0 {
        "## 全市场解禁日历\n\n"@ + "| 日期 | 家数 | 解禁市值(亿) |\n| --- | ---: | ---: |\n"@
            + calendar_lines(days, days.len()) + "\n"@
    } else {
        Seq::empty()
    }
}

/// The cells of a main-table row before its links.
pub open spec fn main_cells(row: RankedUnlock, fig: RowFigures) -> Seq<char> {
    "| "@ + decimal(row.rank as nat) + " | "@ + row.event.code@ + " | "@ + row.event.name@ + " | "@
        + spec_format_date(row.event.free_date@) + " | "@ + format_padded(row.days_ahead as int, 0)
        + " | "@ + fig.lift_yi@ + " | "@ + fig.free_ratio_pct@ + " | "@ + row.event.share_type@
}

/// The links that end a main-table row.
pub open spec fn main_links(row: RankedUnlock) -> Seq<char> {
    " | [解禁]("@ + row.event.spec_unlock_url() + ") | [公告]("@ + row.event.spec_notice_url()
        + ") | [资讯]("@ + row.event.spec_news_url() + ") |\n"@
}

/// A row of the main table.
pub open spec fn main_line(row: RankedUnlock, fig: RowFigures) -> Seq<char> {
    main_cells(row, fig) + main_links(row)
}

/// The main table's rows for the first `n` rows.
pub open spec fn main_lines(rows: Seq<RankedUnlock>, figs: Seq<RowFigures>, n: nat) -> Seq<char>
    decreases n,
{
    if n == 0 {
        Seq::empty()
    } else {
        main_lines(rows, figs, (n - 1) as nat) + main_line(rows[n - 1], figs[n - 1])
    }
}

/// The table of all ranked rows.
pub open spec fn main_section(rows: Seq<RankedUnlock>, figs: Seq<RowFigures>) -> Seq<char> {
    "## 大额解禁个股\n\n"@
        + "| 排名 | 代码 | 简称 | 解禁日 | 距今(天) | 解禁市值(亿) | 占流通% | 类型 | 解禁页 | 公告 | 资讯 |\n"@
        + "| ---: | --- | --- | --- | ---: | ---: | ---: | --- | --- | --- | --- |\n"@
        + main_lines(rows, figs, rows.len())
}

/// A row of a holder table.
pub open spec fn holder_line(holder: Holder, fig: HolderFigures) -> Seq<char> {
    "| "@ + holder.name@ + " | "@ + fig.shares@ + " | "@ + fig.cap@ + " | "@ + fig.lock_month@
        + " | "@ + holder.share_type@ + " |\n"@
}

/// The holder table's rows for the first `n` holders.
pub open spec fn holder_lines(holders: Seq<Holder>, figs: Seq<HolderFigures>, n: nat) -> Seq<char>
    decreases n,
{
    if n == 0 {
        Seq::empty()
    } else {
        holder_lines(holders, figs, (n - 1) as nat) + holder_line(holders[n - 1], figs[n - 1])
    }
}

/// A row's holder table, present when it has holders.
pub open spec fn holder_block(row: RankedUnlock, figs: Seq<HolderFigures>) -> Seq<char> {
    if row.holders.len() > 0 {
        "\n### "@ + row.event.code@ + " "@ + row.event.name@ + "（"@ + spec_format_date(
            row.event.free_date@,
        ) + "）\n"@
            + "| 股东 | 解禁股数 | 解禁市值(元) | 锁定期(月) | 类型 |\n| --- | ---: | ---: | ---: | --- |\n"@
            + holder_lines(row.holders@, figs, row.holders@.len())
    } else {
        Seq::empty()
    }
}

/// The holder tables of the first `n` rows.
pub open spec fn holder_blocks(rows: Seq<RankedUnlock>, figs: Seq<Vec<HolderFigures>>, n: nat) -> Seq<
    char,
>
    decreases n,
{
    if n == 0 {
        Seq::empty()
    } else {
        holder_blocks(rows, figs, (n - 1) as nat) + holder_block(rows[n - 1], figs[n - 1]@)
    }
}

/// The holders section, present when some row has holders.
pub open spec fn holders_section(rows: Seq<RankedUnlock>, figs: Seq<Vec<HolderFigures>>) -> Seq<char> {
    if exists|i: int| 0 <= i < rows.len() && (#[trigger] rows[i]).holders.len() > 0 {
        "\n## 解禁股东（Top 名单）\n"@ + holder_blocks(rows, figs, rows.len())
    } else {
        Seq::empty()
    }
}

/// The whole report.
pub open spec fn spec_render_markdown(
    title_date: Date,
    start: Date,
    end: Date,
    min_yi: Seq<char>,
    near_days: u32,
    rows: Seq<RankedUnlock>,
    figs: Seq<RowFigures>,
    holder_figs: Seq<Vec<HolderFigures>>,
    calendar: Seq<CalendarLine>,
) -> Seq<char> {
    spec_report_head(title_date, start, end, min_yi, rows.len()) + near_section(rows, figs, near_days)
        + calendar_section(calendar) + main_section(rows, figs) + holders_section(rows, holder_figs)
        + "\n"@
}

/// The figures match the rows: one per row, and one per holder of each row.
pub open spec fn figures_match(
    rows: Seq<RankedUnlock>,
    figs: Seq<RowFigures>,
    holder_figs: Seq<Vec<HolderFigures>>,
) -> bool {
    &&& figs.len() == rows.len()
    &&& holder_figs.len() == rows.len()
    &&& forall|i: int|
        0 <= i < rows.len() ==> (#[trigger] holder_figs[i]).len() == rows[i].holders.len()
}

// ---------------------------------------------------------------------------
// Writing the parts
// ---------------------------------------------------------------------------
fn push_head(out: &mut String, title_date: Date, start: Date, end: Date, min_yi: &str, rows: usize)
    ensures
        final(out)@ == old(out)@ + spec_report_head(title_date, start, end, min_yi@, rows as nat),
{
    let ghost begin = out@;
    push_str(out, "# ");
    let stem = report_stem(title_date, rows);
    push_str(out, stem.as_str());
    push_str(out, "\n\n");
    push_str(out, "- 数据源: [东方财富 · 限售股解禁](https://data.eastmoney.com/dxf/detail.html)\n");
    push_str(out, "- 窗口: ");
    let s = start.to_string();
    push_str(out, s.as_str());
    push_str(out, " ～ ");
    let e = end.to_string();
    push_str(out, e.as_str());
    push_str(out, "（解禁期前，含当日）\n");
    push_str(out, "- 门槛: 解禁市值 ≥ ");
    push_str(out, min_yi);
    push_str(out, " 亿元\n");
    push_str(out, "- 抓取日: ");
    let t = title_date.to_string();
    push_str(out, t.as_str());
    push_str(out, "（北京时间）\n");
    push_str(
        out,
        "- 说明: 市值来自东财公开 JSON（万元），本表换算为亿元。链接指向个股解禁页、公告页与「简称+解禁」资讯搜索。\n\n",
    );
    assert(out@ =~= begin + spec_report_head(title_date, start, end, min_yi@, rows as nat));
}

fn push_near_line(out: &mut String, row: &RankedUnlock, fig: &RowFigures)
    ensures
        final(out)@ == old(out)@ + near_line(*row, *fig),
{
    let ghost begin = out@;
    push_str(out, "| ");
    push_padded(out, row.days_ahead as i64, 0);
    push_str(out, " | ");
    push_str(out, row.event.code.as_str());
    push_str(out, " | ");
    push_str(out, row.event.name.as_str());
    push_str(out, " | ");
    let date = format_date(row.event.free_date.as_str());
    push_str(out, date.as_str());
    push_str(out, " | ");
    push_str(out, fig.lift_yi.as_str());
    push_str(out, " | ");
    push_str(out, row.event.share_type.as_str());
    push_str(out, " |\n");
    assert(out@ =~= begin + near_line(*row, *fig));
}

/// Whether some row unlocks within `near_days` days.
fn any_near(rows: &[RankedUnlock], near_days: u32) -> (r: bool)
    ensures
        r == exists|i: int| 0 <= i < rows.len() && is_near(#[trigger] rows@[i], near_days),
{
    let mut i: usize = 0;
    while i < rows.len()
        invariant
            0 <= i <= rows.len(),
            forall|j: int| 0 <= j < i ==> !is_near(#[trigger] rows@[j], near_days),
        decreases rows.len() - i,
    {
        if 0 <= rows[i].days_ahead && rows[i].days_ahead as i64 <= near_days as i64 {
            assert(is_near(rows@[i as int], near_days));
            return true;
        }
        i = i + 1;
    }
    false
}

fn push_near_section(out: &mut String, rows: &[RankedUnlock], figs: &[RowFigures], near_days: u32)
    requires
        figs.len() == rows.len(),
    ensures
        final(out)@ == old(out)@ + near_section(rows@, figs@, near_days),
{
    if !any_near(rows, near_days) {
        assert(out@ =~= out@ + near_section(rows@, figs@, near_days));
        return;
    }
    let ghost begin = out@;
    push_str(out, "## 解禁临近（");
    push_decimal(out, near_days as u64);
    push_str(out, " 天内）\n\n");
    push_str(
        out,
        "| 距今 | 代码 | 简称 | 解禁日 | 解禁市值(亿) | 类型 |\n| ---: | --- | --- | --- | ---: | --- |\n",
    );
    let ghost mid = out@;
    let mut i: usize = 0;
    while i < rows.len()
        invariant
            0 <= i <= rows.len() == figs.len(),
            out@ == mid + near_lines(rows@, figs@, near_days, i as nat),
        decreases rows.len() - i,
    {
        let ghost before = out@;
        if 0 <= rows[i].days_ahead && rows[i].days_ahead as i64 <= near_days as i64 {
            push_near_line(out, &rows[i], &figs[i]);
        }
        assert(out@ =~= mid + near_lines(rows@, figs@, near_days, (i + 1) as nat));
        i = i + 1;
    }
    push_str(out, "\n");
    assert(out@ =~= begin + near_section(rows@, figs@, near_days));
}

fn push_calendar_section(out: &mut String, calendar: &[CalendarLine])
    ensures
        final(out)@ == old(out)@ + calendar_section(calendar@),
{
    if calendar.len() == 0 {
        assert(out@ =~= out@ + calendar_section(calendar@));
        return;
    }
    let ghost begin = out@;
    push_str(out, "## 全市场解禁日历\n\n");
    push_str(out, "| 日期 | 家数 | 解禁市值(亿) |\n| --- | ---: | ---: |\n");
    let ghost mid = out@;
    let mut i: usize = 0;
    while i < calendar.len()
        invariant
            0 <= i <= calendar.len(),
            out@ == mid + calendar_lines(calendar@, i as nat),
        decreases calendar.len() - i,
    {
        let ghost before = out@;
        let day = &calendar[i];
        push_str(out, "| ");
        let date = format_date(day.date.as_str());
        push_str(out, date.as_str());
        push_str(out, " | ");
        push_str(out, day.org_num.as_str());
        push_str(out, " | ");
        push_str(out, day.lift_yi.as_str());
        push_str(out, " |\n");
        assert(out@ =~= before + calendar_line(calendar@[i as int]));
        assert(out@ =~= mid + calendar_lines(calendar@, (i + 1) as nat));
        i = i + 1;
    }
    push_str(out, "\n");
    assert(out@ =~= begin + calendar_section(calendar@));
}

fn push_main_cells(out: &mut String, row: &RankedUnlock, fig: &RowFigures)
    ensures
        final(out)@ == old(out)@ + main_cells(*row, *fig),
{
    let ghost begin = out@;
    push_str(out, "| ");
    push_decimal(out, row.rank as u64);
    push_str(out, " | ");
    push_str(out, row.event.code.as_str());
    push_str(out, " | ");
    push_str(out, row.event.name.as_str());
    push_str(out, " | ");
    let date = format_date(row.event.free_date.as_str());
    push_str(out, date.as_str());
    push_str(out, " | ");
    push_padded(out, row.days_ahead as i64, 0);
    push_str(out, " | ");
    push_str(out, fig.lift_yi.as_str());
    push_str(out, " | ");
    push_str(out, fig.free_ratio_pct.as_str());
    push_str(out, " | ");
    push_str(out, row.event.share_type.as_str());
    assert(out@ =~= begin + main_cells(*row, *fig));
}

fn push_main_links(out: &mut String, row: &RankedUnlock)
    ensures
        final(out)@ == old(out)@ + main_links(*row),
{
    let ghost begin = out@;
    push_str(out, " | [解禁](");
    let unlock = row.event.unlock_url();
    push_str(out, unlock.as_str());
    push_str(out, ") | [公告](");
    let notice = row.event.notice_url();
    push_str(out, notice.as_str());
    push_str(out, ") | [资讯](");
    let news = row.event.news_url();
    push_str(out, news.as_str());
    push_str(out, ") |\n");
    assert(out@ =~= begin + main_links(*row));
}

fn push_main_line(out: &mut String, row: &RankedUnlock, fig: &RowFigures)
    ensures
        final(out)@ == old(out)@ + main_line(*row, *fig),
{
    let ghost begin = out@;
    push_main_cells(out, row, fig);
    push_main_links(out, row);
    assert(out@ =~= begin + main_line(*row, *fig));
}

fn push_main_section(out: &mut String, rows: &[RankedUnlock], figs: &[RowFigures])
    requires
        figs.len() == rows.len(),
    ensures
        final(out)@ == old(out)@ + main_section(rows@, figs@),
{
    let ghost begin = out@;
    push_str(out, "## 大额解禁个股\n\n");
    push_str(
        out,
        "| 排名 | 代码 | 简称 | 解禁日 | 距今(天) | 解禁市值(亿) | 占流通% | 类型 | 解禁页 | 公告 | 资讯 |\n",
    );
    push_str(out, "| ---: | --- | --- | --- | ---: | ---: | ---: | --- | --- | --- | --- |\n");
    let ghost mid = out@;
    let mut i: usize = 0;
    while i < rows.len()
        invariant
            0 <= i <= rows.len() == figs.len(),
            out@ == mid + main_lines(rows@, figs@, i as nat),
        decreases rows.len() - i,
    {
        push_main_line(out, &rows[i], &figs[i]);
        assert(out@ =~= mid + main_lines(rows@, figs@, (i + 1) as nat));
        i = i + 1;
    }
    assert(out@ =~= begin + main_section(rows@, figs@));
}

fn push_holder_block(out: &mut String, row: &RankedUnlock, figs: &Vec<HolderFigures>)
    requires
        figs.len() == row.holders.len(),
    ensures
        final(out)@ == old(out)@ + holder_block(*row, figs@),
{
    if row.holders.len() == 0 {
        assert(out@ =~= out@ + holder_block(*row, figs@));
        return;
    }
    let ghost begin = out@;
    push_str(out, "\n### ");
    push_str(out, row.event.code.as_str());
    push_str(out, " ");
    push_str(out, row.event.name.as_str());
    push_str(out, "（");
    let date = format_date(row.event.free_date.as_str());
    push_str(out, date.as_str());
    push_str(out, "）\n");
    push_str(
        out,
        "| 股东 | 解禁股数 | 解禁市值(元) | 锁定期(月) | 类型 |\n| --- | ---: | ---: | ---: | --- |\n",
    );
    let ghost mid = out@;
    let mut i: usize = 0;
    while i < row.holders.len()
        invariant
            0 <= i <= row.holders.len() == figs.len(),
            out@ == mid + holder_lines(row.holders@, figs@, i as nat),
        decreases row.holders.len() - i,
    {
        let ghost before = out@;
        let holder = &row.holders[i];
        let fig = &figs[i];
        push_str(out, "| ");
        push_str(out, holder.name.as_str());
        push_str(out, " | ");
        push_str(out, fig.shares.as_str());
        push_str(out, " | ");
        push_str(out, fig.cap.as_str());
        push_str(out, " | ");
        push_str(out, fig.lock_month.as_str());
        push_str(out, " | ");
        push_str(out, holder.share_type.as_str());
        push_str(out, " |\n");
        assert(out@ =~= before + holder_line(row.holders@[i as int], figs@[i as int]));
        assert(out@ =~= mid + holder_lines(row.holders@, figs@, (i + 1) as nat));
        i = i + 1;
    }
    assert(out@ =~= begin + holder_block(*row, figs@));
}

/// Whether some row has holders.
fn any_holders(rows: &[RankedUnlock]) -> (r: bool)
    ensures
        r == exists|i: int| 0 <= i < rows.len() && (#[trigger] rows@[i]).holders.len() > 0,
{
    let mut i: usize = 0;
    while i < rows.len()
        invariant
            0 <= i <= rows.len(),
            forall|j: int| 0 <= j < i ==> (#[trigger] rows@[j]).holders.len() == 0,
        decreases rows.len() - i,
    {
        if rows[i].holders.len() > 0 {
            return true;
        }
        i = i + 1;
    }
    false
}

fn push_holders_section(out: &mut String, rows: &[RankedUnlock], figs: &[Vec<HolderFigures>])
    requires
        figs.len() == rows.len(),
        forall|i: int| 0 <= i < rows.len() ==> (#[trigger] figs@[i]).len() == rows@[i].holders.len(),
    ensures
        final(out)@ == old(out)@ + holders_section(rows@, figs@),
{
    if !any_holders(rows) {
        assert(out@ =~= out@ + holders_section(rows@, figs@));
        return;
    }
    let ghost begin = out@;
    push_str(out, "\n## 解禁股东（Top 名单）\n");
    let ghost mid = out@;
    let mut i: usize = 0;
    while i < rows.len()
        invariant
            0 <= i <= rows.len() == figs.len(),
            forall|j: int| 0 <= j < rows.len() ==> (#[trigger] figs@[j]).len() == rows@[j].holders.len(),
            out@ == mid + holder_blocks(rows@, figs@, i as nat),
        decreases rows.len() - i,
    {
        push_holder_block(out, &rows[i], &figs[i]);
        assert(out@ =~= mid + holder_blocks(rows@, figs@, (i + 1) as nat));
        i = i + 1;
    }
    assert(out@ =~= begin + holders_section(rows@, figs@));
}

/// The unlock index as Markdown: the title and notes, the unlocks within
/// `near_days` days, the market-wide calendar, the ranked table with links,
/// and each row's holders. `min_yi` and the figures are the amounts as the
/// report shows them.
pub fn render_markdown(
    title_date: Date,
    start: Date,
    end: Date,
    min_yi: &str,
    near_days: u32,
    rows: &[RankedUnlock],
    figures: &[RowFigures],
    holder_figures: &[Vec<HolderFigures>],
    calendar: &[CalendarLine],
) -> (r: String)
    requires
        figures_match(rows@, figures@, holder_figures@),
    ensures
        r@ == spec_render_markdown(
            title_date,
            start,
            end,
            min_yi@,
            near_days,
            rows@,
            figures@,
            holder_figures@,
            calendar@,
        ),
{
    let mut out = String::new();
    push_head(&mut out, title_date, start, end, min_yi, rows.len());
    push_near_section(&mut out, rows, figures, near_days);
    push_calendar_section(&mut out, calendar);
    push_main_section(&mut out, rows, figures);
    push_holders_section(&mut out, rows, holder_figures);
    push_str(&mut out, "\n");
    assert(out@ =~= spec_render_markdown(
        title_date,
        start,
        end,
        min_yi@,
        near_days,
        rows@,
        figures@,
        holder_figures@,
        calendar@,
    ));
    out
}

} // verus!
