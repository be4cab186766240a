//! Parse copy into caption lines (plain text or SRT).
use vstd::prelude::*;

use crate::text::{
    all_ascii_digits, chars_of, concat, is_all_ascii_digits, is_trimmed, is_whitespace,
    lemma_split_char_len, lemma_trim_props, lines, parse_unsigned, parse_unsigned_chars,
    spec_is_whitespace, split_char, split_on, string_of, sub_chars, trim, trim_chars,
};

verus! {

#[derive(Debug, Clone, PartialEq, Eq)]
pub struct Caption {
    pub text: String,
    pub start_us: Option<u64>,
    pub end_us: Option<u64>,
}

/// A caption as values: its text as characters and its optional timing.
pub struct CaptionView {
    pub text: Seq<char>,
    pub start_us: Option<u64>,
    pub end_us: Option<u64>,
}

impl Caption {
    pub open spec fn view(&self) -> CaptionView {
        CaptionView { text: self.text@, start_us: self.start_us, end_us: self.end_us }
    }
}

pub open spec fn captions_view(v: Seq<Caption>) -> Seq<CaptionView> {
    v.map_values(|c: Caption| c.view())
}

/// The concatenation of a sequence of sequences.
pub open spec fn flatten<T>(xs: Seq<Seq<T>>) -> Seq<T>
    decreases xs.len(),
{
    if xs.len() == 0 {
        Seq::empty()
    } else {
        flatten(xs.drop_last()) + xs.last()
    }
}

// ---------------------------------------------------------------------------
// The whole script
// ---------------------------------------------------------------------------
/// `\r\n` and lone `\r` both become `\n`.
pub open spec fn normalize_newlines(s: Seq<char>) -> Seq<char>
    decreases s.len(),
{
    if s.len() == 0 {
        s
    } else if s.len() >= 2 && s.last() == '\n' && s[s.len() - 2] == '\r' {
        normalize_newlines(s.take(s.len() - 2)).push('\n')
    } else if s.last() == '\r' {
        normalize_newlines(s.drop_last()).push('\n')
    } else {
        normalize_newlines(s.drop_last()).push(s.last())
    }
}

/// Whether `s` holds `-->` somewhere.
pub open spec fn has_arrow(s: Seq<char>) -> bool {
    exists|i: int| 0 <= i && i + 3 <= s.len() && #[trigger] is_arrow_at(s, i)
}

pub open spec fn is_arrow_at(s: Seq<char>, i: int) -> bool {
    s[i] == '-' && s[i + 1] == '-' && s[i + 2] == '>'
}

/// The captions of a script: SRT when some line holds `-->`, else plain
/// text cut into sentences.
pub open spec fn spec_parse_script(raw: Seq<char>) -> Seq<CaptionView> {
    let t = trim(normalize_newlines(raw));
    if t.len() == 0 {
        Seq::empty()
    } else if has_arrow(t) {
        spec_parse_srt(t)
    } else {
        spec_split_plain(t)
    }
}

fn normalize_newlines_chars(s: &[char]) -> (r: Vec<char>)
    ensures
        r@ == normalize_newlines(s@),
{
    let mut r: Vec<char> = Vec::new();
    let mut i: usize = 0;
    while i < s.len()
        invariant
            0 <= i <= s.len(),
            r@ == normalize_newlines(s@.take(i as int)),
            i > 0 && s@[i - 1] == '\r' ==> i == s.len() || s@[i as int] != '\n',
        decreases s.len() - i,
    {
        if s[i] == '\r' && i + 1 < s.len() && s[i + 1] == '\n' {
            r.push('\n');
            assert(s@.take(i + 2).take(i as int) == s@.take(i as int));
            i = i + 2;
        } else if s[i] == '\r' {
            r.push('\n');
            assert(s@.take(i + 1).drop_last() == s@.take(i as int));
            i = i + 1;
        } else {
            r.push(s[i]);
            assert(s@.take(i + 1).drop_last() == s@.take(i as int));
            i = i + 1;
        }
    }
    assert(s@.take(s.len() as int) == s@);
    r
}

fn has_arrow_chars(s: &[char]) -> (r: bool)
    ensures
        r == has_arrow(s@),
{
    let mut i: usize = 0;
    while s.len() >= 3 && i <= s.len() - 3
        invariant
            0 <= i,
            forall|j: int| 0 <= j < i && j + 3 <= s@.len() ==> !#[trigger] is_arrow_at(s@, j),
        decreases s.len() - i,
    {
        if s[i] == '-' && s[i + 1] == '-' && s[i + 2] == '>' {
            assert(is_arrow_at(s@, i as int));
            return true;
        }
        i = i + 1;
    }
    false
}

/// Splits a script into captions: SRT when some line holds `-->`, plain
/// text otherwise; an empty script gives no captions.
pub fn parse_script(raw: &str) -> (r: Vec<Caption>)
    ensures
        captions_view(r@) == spec_parse_script(raw@),
{
    let chars = chars_of(raw);
    let normalized = normalize_newlines_chars(&chars);
    let t = trim_chars(&normalized);
    proof {
        lemma_trim_props(normalized@);
    }
    if t.len() == 0 {
        let r: Vec<Caption> = Vec::new();
        assert(captions_view(r@) == Seq::<CaptionView>::empty());
        return r;
    }
    if has_arrow_chars(&t) {
        return parse_srt(&t);
    }
    split_plain(&t)
}

// ---------------------------------------------------------------------------
// SRT
// ---------------------------------------------------------------------------
/// The scanner's state between lines.
pub struct SrtView {
    pub captions: Seq<CaptionView>,
    pub pending: Option<(u64, u64)>,
    pub text_lines: Seq<Seq<char>>,
}

/// Closes the block being read: its text lines, joined and trimmed, become
/// a caption with the pending timing; an empty block is dropped.
pub open spec fn srt_flush(st: SrtView) -> SrtView {
    if st.text_lines.len() == 0 {
        SrtView { pending: None, ..st }
    } else {
        let text = trim(concat(st.text_lines));
        if text.len() == 0 {
            SrtView { captions: st.captions, pending: None, text_lines: Seq::empty() }
        } else {
            SrtView {
                captions: st.captions.push(
                    CaptionView {
                        text,
                        start_us: match st.pending {
                            Some(p) => Some(p.0),
                            None => None,
                        },
                        end_us: match st.pending {
                            Some(p) => Some(p.1),
                            None => None,
                        },
                    },
                ),
                pending: None,
                text_lines: Seq::empty(),
            }
        }
    }
}

/// One line of an SRT file: a blank line ends a block, a number line is
/// skipped, a timing line ends a block and starts a new timing, anything
/// else is caption text.
pub open spec fn srt_step(st: SrtView, raw_line: Seq<char>) -> SrtView {
    let line = trim(raw_line);
    if line.len() == 0 {
        srt_flush(st)
    } else if all_ascii_digits(line) {
        st
    } else {
        match srt_times(line) {
            Some(p) => SrtView { pending: Some(p), ..srt_flush(st) },
            None => SrtView { text_lines: st.text_lines.push(line), ..st },
        }
    }
}

pub open spec fn srt_scan(ls: Seq<Seq<char>>) -> SrtView
    decreases ls.len(),
{
    if ls.len() == 0 {
        SrtView { captions: Seq::empty(), pending: None, text_lines: Seq::empty() }
    } else {
        srt_step(srt_scan(ls.drop_last()), ls.last())
    }
}

pub open spec fn spec_parse_srt(t: Seq<char>) -> Seq<CaptionView> {
    srt_flush(srt_scan(lines(t))).captions
}

/// The index of the first `-->` at or after `from`.
pub open spec fn first_arrow(s: Seq<char>, from: int) -> Option<int>
    decreases s.len() - from,
{
    if from < 0 || from + 3 > s.len() {
        None
    } else if is_arrow_at(s, from) {
        Some(from)
    } else {
        first_arrow(s, from + 1)
    }
}

/// The start and end of a timing line `start --> end`.
pub open spec fn srt_times(line: Seq<char>) -> Option<(u64, u64)> {
    match first_arrow(line, 0) {
        None => None,
        Some(i) => match (
            srt_clock(trim(line.take(i))),
            srt_clock(trim(line.skip(i + 3))),
        ) {
            (Some(a), Some(b)) => Some((a, b)),
            _ => None,
        },
    }
}

/// The index of the first `c` in `s`.
pub open spec fn first_index(s: Seq<char>, c: char, from: int) -> Option<int>
    decreases s.len() - from,
{
    if from < 0 || from >= s.len() {
        None
    } else if s[from] == c {
        Some(from)
    } else {
        first_index(s, c, from + 1)
    }
}

/// Microseconds of an SRT clock `HH:MM:SS[,mmm]` (a comma or a dot before
/// the milliseconds; only their first three characters count, and they
/// count as 0 when they are not a number). A value beyond `u64` is no clock.
pub open spec fn srt_clock(v: Seq<char>) -> Option<u64> {
    let w = crate::date::replace_char(v, ',', '.');
    let (hms, frac) = match first_index(w, '.', 0) {
        Some(k) => (w.take(k), w.skip(k + 1)),
        None => (w, seq!['0']),
    };
    let parts = split_char(hms, ':');
    if parts.len() != 3 {
        None
    } else {
        match (
            parse_unsigned(parts[0], u64::MAX as nat),
            parse_unsigned(parts[1], u64::MAX as nat),
            parse_unsigned(parts[2], u64::MAX as nat),
        ) {
            (Some(h), Some(m), Some(s)) => {
                let millis = match parse_unsigned(
                    frac.take(if frac.len() < 3 { frac.len() as int } else { 3 }),
                    u64::MAX as nat,
                ) {
                    Some(x) => x,
                    None => 0,
                };
                let total = ((h * 3600 + m * 60 + s) * 1000 + millis) * 1000;
                if total <= u64::MAX {
                    Some(total as u64)
                } else {
                    None
                }
            },
            _ => None,
        }
    }
}

fn find_arrow(s: &[char]) -> (r: Option<usize>)
    ensures
        match r {
            Some(i) => first_arrow(s@, 0) == Some(i as int) && i + 3 <= s@.len(),
            None => first_arrow(s@, 0) is None,
        },
{
    let mut i: usize = 0;
    while s.len() >= 3 && i <= s.len() - 3
        invariant
            0 <= i,
            i <= s.len(),
            first_arrow(s@, 0) == first_arrow(s@, i as int),
        decreases s.len() - i,
    {
        if s[i] == '-' && s[i + 1] == '-' && s[i + 2] == '>' {
            return Some(i);
        }
        i = i + 1;
    }
    None
}

fn find_char(s: &[char], c: char) -> (r: Option<usize>)
    ensures
        match r {
            Some(i) => first_index(s@, c, 0) == Some(i as int) && i < s@.len(),
            None => first_index(s@, c, 0) is None,
        },
{
    let mut i: usize = 0;
    while i < s.len()
        invariant
            0 <= i <= s.len(),
            first_index(s@, c, 0) == first_index(s@, c, i as int),
        decreases s.len() - i,
    {
        if s[i] == c {
            return Some(i);
        }
        i = i + 1;
    }
    None
}

fn parse_srt_clock(v: &[char]) -> (r: Option<u64>)
    ensures
        r == srt_clock(v@),
{
    let mut w: Vec<char> = Vec::new();
    let mut i: usize = 0;
    while i < v.len()
        invariant
            0 <= i <= v.len(),
            w@ == crate::date::replace_char(v@.take(i as int), ',', '.'),
        decreases v.len() - i,
    {
        w.push(if v[i] == ',' { '.' } else { v[i] });
        assert(crate::date::replace_char(v@.take(i + 1), ',', '.') == crate::date::replace_char(
            v@.take(i as int),
            ',',
            '.',
        ).push(if v@[i as int] == ',' { '.' } else { v@[i as int] }));
        i = i + 1;
    }
    assert(v@.take(v.len() as int) == v@);
    let (hms, frac) = match find_char(&w, '.') {
        Some(k) => (sub_chars(&w, 0, k), sub_chars(&w, k + 1, w.len())),
        None => {
            let mut zero: Vec<char> = Vec::new();
            zero.push('0');
            (sub_chars(&w, 0, w.len()), zero)
        },
    };
    assert(w@.subrange(0, w@.len() as int) == w@);
    let parts = split_on(&hms, ':');
    if parts.len() != 3 {
        return None;
    }
    let h = match parse_unsigned_chars(&parts[0], u64::MAX) {
        Some(x) => x,
        None => {
            return None;
        },
    };
    let m = match parse_unsigned_chars(&parts[1], u64::MAX) {
        Some(x) => x,
        None => {
            return None;
        },
    };
    let s = match parse_unsigned_chars(&parts[2], u64::MAX) {
        Some(x) => x,
        None => {
            return None;
        },
    };
    let take: usize = if frac.len() < 3 {
        frac.len()
    } else {
        3
    };
    let head = sub_chars(&frac, 0, take);
    assert(head@ == frac@.take(take as int));
    let millis = match parse_unsigned_chars(&head, u64::MAX) {
        Some(x) => x,
        None => 0,
    };
    let a = match h.checked_mul(3600) {
        Some(x) => x,
        None => {
            return None;
        },
    };
    let b = match m.checked_mul(60) {
        Some(x) => x,
        None => {
            return None;
        },
    };
    let c = match a.checked_add(b) {
        Some(x) => x,
        None => {
            return None;
        },
    };
    let d = match c.checked_add(s) {
        Some(x) => x,
        None => {
            return None;
        },
    };
    let e = match d.checked_mul(1000) {
        Some(x) => x,
        None => {
            return None;
        },
    };
    let f = match e.checked_add(millis) {
        Some(x) => x,
        None => {
            return None;
        },
    };
    match f.checked_mul(1000) {
        Some(x) => Some(x),
        None => None,
    }
}

fn parse_srt_times(line: &[char]) -> (r: Option<(u64, u64)>)
    ensures
        r == srt_times(line@),
{
    match find_arrow(line) {
        None => None,
        Some(i) => {
            let left = sub_chars(line, 0, i);
            let right = sub_chars(line, i + 3, line.len());
            assert(left@ == line@.take(i as int));
            assert(right@ == line@.skip(i + 3));
            let lt = trim_chars(&left);
            let rt = trim_chars(&right);
            let a = parse_srt_clock(&lt);
            let b = parse_srt_clock(&rt);
            match (a, b) {
                (Some(x), Some(y)) => Some((x, y)),
                _ => None,
            }
        },
    }
}

fn join_lines(ls: &Vec<Vec<char>>) -> (r: Vec<char>)
    ensures
        r@ == concat(ls@.map_values(|l: Vec<char>| l@)),
{
    let ghost views = ls@.map_values(|l: Vec<char>| l@);
    let mut r: Vec<char> = Vec::new();
    let mut k: usize = 0;
    while k < ls.len()
        invariant
            0 <= k <= ls.len(),
            views == ls@.map_values(|l: Vec<char>| l@),
            r@ == concat(views.take(k as int)),
        decreases ls.len() - k,
    {
        let line = &ls[k];
        let mut j: usize = 0;
        let ghost before = r@;
        while j < line.len()
            invariant
                0 <= j <= line.len(),
                r@ == before + line@.take(j as int),
            decreases line.len() - j,
        {
            r.push(line[j]);
            assert(line@.take(j + 1) == line@.take(j as int).push(line@[j as int]));
            j = j + 1;
        }
        assert(line@.take(line.len() as int) == line@);
        assert(views.take(k + 1).drop_last() == views.take(k as int));
        k = k + 1;
    }
    assert(views.take(ls.len() as int) == views);
    r
}

struct SrtScan {
    captions: Vec<Caption>,
    pending: Option<(u64, u64)>,
    text_lines: Vec<Vec<char>>,
}

impl SrtScan {
    spec fn view(&self) -> SrtView {
        SrtView {
            captions: captions_view(self.captions@),
            pending: self.pending,
            text_lines: self.text_lines@.map_values(|l: Vec<char>| l@),
        }
    }

    fn flush(&mut self)
        ensures
            final(self).view() == srt_flush(old(self).view()),
    {
        if self.text_lines.len() == 0 {
            self.pending = None;
            return ;
        }
        let joined = join_lines(&self.text_lines);
        let text = trim_chars(&joined);
        self.text_lines = Vec::new();
        assert(self.text_lines@.map_values(|l: Vec<char>| l@) == Seq::<Seq<char>>::empty());
        if text.len() == 0 {
            self.pending = None;
            return ;
        }
        let (start_us, end_us) = match self.pending {
            Some(p) => (Some(p.0), Some(p.1)),
            None => (None, None),
        };
        self.pending = None;
        let caption = Caption { text: string_of(&text), start_us, end_us };
        self.captions.push(caption);
        assert(captions_view(self.captions@) == captions_view(old(self).captions@).push(
            caption.view(),
        ));
    }
}

fn parse_srt(t: &[char]) -> (r: Vec<Caption>)
    requires
        t@.len() > 0,
        is_trimmed(t@),
    ensures
        captions_view(r@) == spec_parse_srt(t@),
{
    let ls = split_on(t, '\n');
    let ghost lv = split_char(t@, '\n');
    assert(lines(t@) == lv) by {
        assert(spec_is_whitespace('\n'));
    }
    proof {
        assert(ls@.map_values(|l: Vec<char>| l@) == lv);
    }
    let mut st = SrtScan { captions: Vec::new(), pending: None, text_lines: Vec::new() };
    assert(st.view().captions == Seq::<CaptionView>::empty());
    assert(st.view().text_lines == Seq::<Seq<char>>::empty());
    let mut i: usize = 0;
    while i < ls.len()
        invariant
            0 <= i <= ls.len(),
            ls@.len() == lv.len(),
            forall|k: int| 0 <= k < ls@.len() ==> #[trigger] ls@[k]@ == lv[k],
            st.view() == srt_scan(lv.take(i as int)),
        decreases ls.len() - i,
    {
        assert(lv.take(i + 1).drop_last() == lv.take(i as int));
        assert(lv.take(i + 1).last() == ls@[i as int]@);
        let ghost prev = st.view();
        let line = trim_chars(&ls[i]);
        if line.len() == 0 {
            st.flush();
        } else if is_all_ascii_digits(&line) {
        } else {
            match parse_srt_times(&line) {
                Some(p) => {
                    st.flush();
                    st.pending = Some(p);
                },
                None => {
                    let ghost tl = st.text_lines@.map_values(|l: Vec<char>| l@);
                    st.text_lines.push(line);
                    assert(st.text_lines@.map_values(|l: Vec<char>| l@) == tl.push(line@));
                },
            }
        }
        assert(st.view() == srt_step(prev, lv[i as int]));
        i = i + 1;
    }
    assert(lv.take(ls.len() as int) == lv);
    st.flush();
    st.captions
}

// ---------------------------------------------------------------------------
// Plain text
// ---------------------------------------------------------------------------
/// `str::split("\n\n")`: pieces between non-overlapping blank-line
/// separators, matched from the left.
pub open spec fn split_paragraphs(s: Seq<char>) -> Seq<Seq<char>>
    decreases s.len(),
{
    if s.len() == 0 {
        seq![Seq::<char>::empty()]
    } else if s.len() >= 2 && s[0] == '\n' && s[1] == '\n' {
        seq![Seq::<char>::empty()] + split_paragraphs(s.skip(2))
    } else {
        let r = split_paragraphs(s.drop_first());
        seq![seq![s[0]] + r[0]] + r.drop_first()
    }
}

pub proof fn lemma_split_paragraphs_len(s: Seq<char>)
    ensures
        split_paragraphs(s).len() >= 1,
    decreases s.len(),
{
    if s.len() == 0 {
    } else if s.len() >= 2 && s[0] == '\n' && s[1] == '\n' {
        lemma_split_paragraphs_len(s.skip(2));
    } else {
        lemma_split_paragraphs_len(s.drop_first());
    }
}

/// `s` without its line feeds.
pub open spec fn remove_newlines(s: Seq<char>) -> Seq<char>
    decreases s.len(),
{
    if s.len() == 0 {
        s
    } else if s.last() == '\n' {
        remove_newlines(s.drop_last())
    } else {
        remove_newlines(s.drop_last()).push(s.last())
    }
}

/// The non-empty paragraphs, trimmed and joined into one line each.
pub open spec fn paragraphs(pieces: Seq<Seq<char>>) -> Seq<Seq<char>>
    decreases pieces.len(),
{
    if pieces.len() == 0 {
        Seq::empty()
    } else {
        let rest = paragraphs(pieces.drop_last());
        let p = trim(pieces.last());
        if p.len() == 0 {
            rest
        } else {
            rest.push(remove_newlines(p))
        }
    }
}

pub open spec fn plain_caption(text: Seq<char>) -> CaptionView {
    CaptionView { text, start_us: None, end_us: None }
}

pub open spec fn spec_split_plain(t: Seq<char>) -> Seq<CaptionView> {
    flatten(paragraphs(split_paragraphs(t)).map_values(|p: Seq<char>| spec_split_sentences(p))).map_values(
        |s: Seq<char>| plain_caption(s),
    )
}

/// Characters that end a sentence.
pub open spec fn is_sentence_end(c: char) -> bool {
    c == '。' || c == '！' || c == '？' || c == '；' || c == '.' || c == '!' || c == '?' || c == ';'
}

/// Cutting a paragraph after each sentence end: the sentences so far and the
/// text since the last end.
pub open spec fn sentence_scan(s: Seq<char>) -> (Seq<Seq<char>>, Seq<char>)
    decreases s.len(),
{
    if s.len() == 0 {
        (Seq::empty(), Seq::empty())
    } else {
        let (done, cur) = sentence_scan(s.drop_last());
        let cur2 = cur.push(s.last());
        if is_sentence_end(s.last()) {
            let piece = trim(cur2);
            (if piece.len() > 0 {
                done.push(piece)
            } else {
                done
            }, Seq::empty())
        } else {
            (done, cur2)
        }
    }
}

/// The sentences of a paragraph, each cut into lines of at most 22
/// characters; a paragraph without any sentence stays whole.
pub open spec fn spec_split_sentences(p: Seq<char>) -> Seq<Seq<char>> {
    let (done, cur) = sentence_scan(p);
    let tail = trim(cur);
    let sentences = if tail.len() > 0 {
        done.push(tail)
    } else {
        done
    };
    if sentences.len() == 0 {
        seq![p]
    } else {
        spec_wrap_long_lines(sentences)
    }
}

/// Trimming keeps something exactly when the text has a character that is
/// no white space.
proof fn lemma_trim_empty_iff_blank(s: Seq<char>)
    ensures
        (trim(s).len() == 0) == (forall|j: int| 0 <= j < s.len() ==> spec_is_whitespace(#[trigger] s[j])),
{
    lemma_trim_props(s);
}

/// The scan of a paragraph finds no sentence and keeps nothing after
/// trimming exactly when the paragraph is blank.
proof fn lemma_scan_blank(y: Seq<char>)
    ensures
        (sentence_scan(y).0.len() == 0 && trim(sentence_scan(y).1).len() == 0) == (forall|j: int|
            0 <= j < y.len() ==> spec_is_whitespace(#[trigger] y[j])),
    decreases y.len(),
{
    if y.len() > 0 {
        let z = y.drop_last();
        let ch = y.last();
        lemma_scan_blank(z);
        let (done, cur) = sentence_scan(z);
        let cur2 = cur.push(ch);
        lemma_trim_empty_iff_blank(cur);
        lemma_trim_empty_iff_blank(cur2);
        assert forall|j: int| 0 <= j < z.len() implies #[trigger] z[j] == y[j] by {}
        if is_sentence_end(ch) {
            assert(!spec_is_whitespace(ch));
            assert(cur2[cur2.len() - 1] == ch);
            assert(trim(cur2).len() > 0);
            assert(y[y.len() - 1] == ch);
        } else {
            assert(sentence_scan(y) == (done, cur2));
            let all_cur = forall|j: int| 0 <= j < cur.len() ==> spec_is_whitespace(#[trigger] cur[j]);
            let all_cur2 = forall|j: int| 0 <= j < cur2.len() ==> spec_is_whitespace(#[trigger] cur2[j]);
            let all_z = forall|j: int| 0 <= j < z.len() ==> spec_is_whitespace(#[trigger] z[j]);
            let all_y = forall|j: int| 0 <= j < y.len() ==> spec_is_whitespace(#[trigger] y[j]);
            assert(all_cur2 == (all_cur && spec_is_whitespace(ch))) by {
                if all_cur && spec_is_whitespace(ch) {
                    assert forall|j: int| 0 <= j < cur2.len() implies spec_is_whitespace(#[trigger] cur2[j]) by {
                        if j < cur.len() {
                            assert(cur2[j] == cur[j]);
                        }
                    }
                }
                if all_cur2 {
                    assert(spec_is_whitespace(cur2[cur2.len() - 1]));
                    assert forall|j: int| 0 <= j < cur.len() implies spec_is_whitespace(#[trigger] cur[j]) by {
                        assert(cur2[j] == cur[j]);
                    }
                }
            }
            assert(all_y == (all_z && spec_is_whitespace(ch))) by {
                if all_z && spec_is_whitespace(ch) {
                    assert forall|j: int| 0 <= j < y.len() implies spec_is_whitespace(#[trigger] y[j]) by {
                        if j < z.len() {
                            assert(y[j] == z[j]);
                        }
                    }
                }
                if all_y {
                    assert(spec_is_whitespace(y[y.len() - 1]));
                    assert forall|j: int| 0 <= j < z.len() implies spec_is_whitespace(#[trigger] z[j]) by {
                        assert(y[j] == z[j]);
                    }
                }
            }
        }
    }
}

/// Scanning `x + y` where the scan of `x` has just closed a sentence
/// continues as a fresh scan of `y`, after the sentences found in `x`.
proof fn lemma_scan_after_cut(x: Seq<char>, y: Seq<char>)
    requires
        sentence_scan(x).1 == Seq::<char>::empty(),
    ensures
        sentence_scan(x + y) == (sentence_scan(x).0 + sentence_scan(y).0, sentence_scan(y).1),
    decreases y.len(),
{
    if y.len() == 0 {
        assert(x + y == x);
    } else {
        lemma_scan_after_cut(x, y.drop_last());
        assert((x + y).drop_last() == x + y.drop_last());
        assert((x + y).last() == y.last());
    }
}

/// A text without sentence ends scans to no sentence and keeps all of it.
proof fn lemma_scan_without_ends(x: Seq<char>)
    requires
        forall|i: int| 0 <= i < x.len() ==> !is_sentence_end(#[trigger] x[i]),
    ensures
        sentence_scan(x) == (Seq::<Seq<char>>::empty(), x),
    decreases x.len(),
{
    if x.len() > 0 {
        let z = x.drop_last();
        assert forall|i: int| 0 <= i < z.len() implies !is_sentence_end(#[trigger] z[i]) by {
            assert(z[i] == x[i]);
        }
        lemma_scan_without_ends(z);
        assert(z.push(x.last()) == x);
    }
}

proof fn lemma_flatten_concat<T>(a: Seq<Seq<T>>, b: Seq<Seq<T>>)
    ensures
        flatten(a + b) == flatten(a) + flatten(b),
    decreases b.len(),
{
    if b.len() == 0 {
        assert(a + b == a);
    } else {
        lemma_flatten_concat(a, b.drop_last());
        assert((a + b).drop_last() == a + b.drop_last());
    }
}

/// Each of `。！？；.!?;` closes a caption of plain copy: in a paragraph
/// whose first sentence end is `c`, the text up to and including `c`
/// (trimmed, and cut into lines of at most 22 characters) makes the first
/// captions, and the text after it is split on its own; when that text is
/// blank it adds nothing.
pub proof fn lemma_sentence_end_closes_caption(x: Seq<char>, c: char, y: Seq<char>)
    requires
        c == '。' || c == '！' || c == '？' || c == '；' || c == '.' || c == '!' || c == '?' || c == ';',
        forall|i: int|
            0 <= i < x.len() ==> !(#[trigger] x[i] == '。' || x[i] == '！' || x[i] == '？' || x[i] == '；'
                || x[i] == '.' || x[i] == '!' || x[i] == '?' || x[i] == ';'),
    ensures
        trim(x.push(c)).len() > 0,
        trim(x.push(c)).len() <= 22 ==> chunks(trim(x.push(c))) == seq![trim(x.push(c))],
        spec_split_sentences(x.push(c) + y) == chunks(trim(x.push(c))) + if (exists|j: int|
            0 <= j < y.len() && !spec_is_whitespace(#[trigger] y[j])) {
            spec_split_sentences(y)
        } else {
            Seq::<Seq<char>>::empty()
        },
{
    let xc = x.push(c);
    let piece = trim(xc);
    assert(!spec_is_whitespace(c));
    lemma_trim_empty_iff_blank(xc);
    assert(!spec_is_whitespace(xc[xc.len() - 1]));
    lemma_scan_without_ends(x);
    assert(xc.drop_last() == x);
    assert(sentence_scan(xc) == (seq![piece], Seq::<char>::empty()));
    lemma_scan_after_cut(xc, y);
    lemma_scan_blank(y);
    let (dy, cy) = sentence_scan(y);
    let ty = trim(cy);
    let sy = if ty.len() > 0 {
        dy.push(ty)
    } else {
        dy
    };
    let p = xc + y;
    let (dp, cp) = sentence_scan(p);
    assert(dp == seq![piece] + dy);
    assert(cp == cy);
    let sp = if ty.len() > 0 {
        dp.push(ty)
    } else {
        dp
    };
    assert(sp == seq![piece] + sy);
    assert(sp.len() > 0);
    let f = |t: Seq<char>| chunks(t);
    assert(sp.map_values(f) == seq![piece].map_values(f) + sy.map_values(f));
    lemma_flatten_concat(seq![piece].map_values(f), sy.map_values(f));
    assert(seq![piece].map_values(f) == seq![chunks(piece)]);
    assert(seq![chunks(piece)].drop_last() == Seq::<Seq<Seq<char>>>::empty());
    assert(flatten(seq![chunks(piece)]) == flatten(Seq::<Seq<Seq<char>>>::empty()) + chunks(piece));
    assert(flatten(seq![chunks(piece)]) == chunks(piece));
    if exists|j: int| 0 <= j < y.len() && !spec_is_whitespace(#[trigger] y[j]) {
        assert(sy.len() > 0);
    } else {
        assert(sy.len() == 0);
        assert(sy.map_values(f) == Seq::<Seq<Seq<char>>>::empty());
    }
}

/// Longest caption line, in characters.
pub const MAX_LINE_CHARS: usize = 22;

/// `s` cut into pieces of `MAX_LINE_CHARS` characters (the last may be
/// shorter); a short line stays whole.
pub open spec fn chunks(s: Seq<char>) -> Seq<Seq<char>>
    decreases s.len(),
{
    if s.len() <= MAX_LINE_CHARS {
        seq![s]
    } else {
        seq![s.take(MAX_LINE_CHARS as int)] + chunks(s.skip(MAX_LINE_CHARS as int))
    }
}

pub open spec fn spec_wrap_long_lines(sentences: Seq<Seq<char>>) -> Seq<Seq<char>> {
    flatten(sentences.map_values(|s: Seq<char>| chunks(s)))
}

fn chunk_chars(s: &[char], out: &mut Vec<Vec<char>>)
    ensures
        final(out)@.len() == old(out)@.len() + chunks(s@).len(),
        forall|k: int| 0 <= k < old(out)@.len() ==> #[trigger] final(out)@[k] == old(out)@[k],
        forall|k: int|
            0 <= k < chunks(s@).len() ==> #[trigger] final(out)@[old(out)@.len() + k]@ == chunks(
                s@,
            )[k],
    decreases s.len(),
{
    if s.len() <= MAX_LINE_CHARS {
        let piece = sub_chars(s, 0, s.len());
        assert(piece@ == s@);
        out.push(piece);
    } else {
        let piece = sub_chars(s, 0, MAX_LINE_CHARS);
        let rest = sub_chars(s, MAX_LINE_CHARS, s.len());
        assert(rest@ == s@.skip(MAX_LINE_CHARS as int));
        out.push(piece);
        let ghost mid = out@;
        chunk_chars(&rest, out);
        assert forall|k: int| 0 <= k < chunks(s@).len() implies #[trigger] out@[old(out)@.len()
            + k]@ == chunks(s@)[k] by {
            if k > 0 {
                assert(out@[old(out)@.len() + k] == out@[mid.len() + (k - 1)]);
            }
        }
    }
}

proof fn lemma_flatten_push<T>(xs: Seq<Seq<T>>, x: Seq<T>)
    ensures
        flatten(xs.push(x)) == flatten(xs) + x,
{
    assert(xs.push(x).drop_last() == xs);
}

fn wrap_long_lines(sentences: &Vec<Vec<char>>) -> (r: Vec<Vec<char>>)
    ensures
        r@.map_values(|l: Vec<char>| l@) == spec_wrap_long_lines(
            sentences@.map_values(|l: Vec<char>| l@),
        ),
{
    let ghost sv = sentences@.map_values(|l: Vec<char>| l@);
    let mut wrapped: Vec<Vec<char>> = Vec::new();
    let mut i: usize = 0;
    while i < sentences.len()
        invariant
            0 <= i <= sentences.len(),
            sv == sentences@.map_values(|l: Vec<char>| l@),
            wrapped@.map_values(|l: Vec<char>| l@) == spec_wrap_long_lines(sv.take(i as int)),
        decreases sentences.len() - i,
    {
        let ghost before = wrapped@;
        chunk_chars(&sentences[i], &mut wrapped);
        proof {
            let st = sv.take(i + 1);
            assert(st == sv.take(i as int).push(sv[i as int]));
            assert(st.map_values(|s: Seq<char>| chunks(s)) == sv.take(i as int).map_values(
                |s: Seq<char>| chunks(s),
            ).push(chunks(sv[i as int])));
            lemma_flatten_push(sv.take(i as int).map_values(|s: Seq<char>| chunks(s)), chunks(sv[i as int]));
            assert(sv[i as int] == sentences@[i as int]@);
            let lhs = wrapped@.map_values(|l: Vec<char>| l@);
            let rhs = before.map_values(|l: Vec<char>| l@) + chunks(sv[i as int]);
            assert(lhs.len() == rhs.len());
            assert forall|k: int| 0 <= k < lhs.len() implies lhs[k] == rhs[k] by {
                if k < before.len() {
                    assert(wrapped@[k] == before[k]);
                } else {
                    assert(wrapped@[before.len() + (k - before.len())]@ == chunks(sv[i as int])[k
                        - before.len()]);
                }
            }
            assert(lhs =~= rhs);
        }
        i = i + 1;
    }
    assert(sv.take(sentences.len() as int) == sv);
    wrapped
}

fn split_sentences(p: &[char]) -> (r: Vec<Vec<char>>)
    ensures
        r@.map_values(|l: Vec<char>| l@) == spec_split_sentences(p@),
{
    let mut sentences: Vec<Vec<char>> = Vec::new();
    let mut current: Vec<char> = Vec::new();
    let mut i: usize = 0;
    while i < p.len()
        invariant
            0 <= i <= p.len(),
            sentence_scan(p@.take(i as int)) == (
                sentences@.map_values(|l: Vec<char>| l@),
                current@,
            ),
        decreases p.len() - i,
    {
        assert(p@.take(i + 1).drop_last() == p@.take(i as int));
        let ch = p[i];
        current.push(ch);
        if is_sentence_end_char(ch) {
            let piece = trim_chars(&current);
            if piece.len() > 0 {
                sentences.push(piece);
            }
            current = Vec::new();
        }
        i = i + 1;
    }
    assert(p@.take(p.len() as int) == p@);
    let tail = trim_chars(&current);
    let ghost done_v = sentences@.map_values(|l: Vec<char>| l@);
    if tail.len() > 0 {
        sentences.push(tail);
        assert(sentences@.map_values(|l: Vec<char>| l@) == done_v.push(tail@));
    }
    if sentences.len() == 0 {
        let mut r: Vec<Vec<char>> = Vec::new();
        r.push(sub_chars(p, 0, p.len()));
        assert(p@.subrange(0, p@.len() as int) == p@);
        assert(r@.map_values(|l: Vec<char>| l@) == seq![p@]);
        r
    } else {
        wrap_long_lines(&sentences)
    }
}

fn is_sentence_end_char(c: char) -> (r: bool)
    ensures
        r == is_sentence_end(c),
{
    c == '。' || c == '！' || c == '？' || c == '；' || c == '.' || c == '!' || c == '?' || c == ';'
}

/// Splits `s` on blank lines as `str::split("\n\n")` does.
fn split_paragraph_chars(s: &[char]) -> (r: Vec<Vec<char>>)
    ensures
        r@.map_values(|l: Vec<char>| l@) == split_paragraphs(s@),
{
    let mut done: Vec<Vec<char>> = Vec::new();
    let mut cur: Vec<char> = Vec::new();
    let mut i: usize = 0;
    proof {
        lemma_split_paragraphs_len(s@);
        let r = split_paragraphs(s@);
        assert(s@.skip(0) == s@);
        assert(done@.map_values(|l: Vec<char>| l@) == Seq::<Seq<char>>::empty());
        assert(Seq::<Seq<char>>::empty() + seq![Seq::<char>::empty() + r[0]] + r.drop_first() =~= r);
    }
    while i < s.len()
        invariant
            0 <= i <= s.len(),
            split_paragraphs(s@.skip(i as int)).len() >= 1,
            done@.map_values(|l: Vec<char>| l@) + seq![
                cur@ + split_paragraphs(s@.skip(i as int))[0],
            ] + split_paragraphs(s@.skip(i as int)).drop_first() == split_paragraphs(s@),
        decreases s.len() - i,
    {
        let ghost rest = s@.skip(i as int);
        if i + 1 < s.len() && s[i] == '\n' && s[i + 1] == '\n' {
            assert(rest.skip(2) == s@.skip(i + 2));
            proof {
                lemma_split_paragraphs_len(s@.skip(i + 2));
            }
            let ghost old_done = done@.map_values(|l: Vec<char>| l@);
            let piece = cur;
            done.push(piece);
            assert(done@.map_values(|l: Vec<char>| l@) == old_done.push(piece@));
            cur = Vec::new();
            assert(cur@ + split_paragraphs(s@.skip(i + 2))[0] == split_paragraphs(
                s@.skip(i + 2),
            )[0]);
            i = i + 2;
        } else {
            assert(rest.drop_first() == s@.skip(i + 1));
            proof {
                lemma_split_paragraphs_len(s@.skip(i + 1));
            }
            let ghost old_cur = cur@;
            cur.push(s[i]);
            assert(cur@ + split_paragraphs(s@.skip(i + 1))[0] == old_cur + (seq![s@[i as int]]
                + split_paragraphs(s@.skip(i + 1))[0]));
            i = i + 1;
        }
    }
    assert(s@.skip(s.len() as int) == Seq::<char>::empty());
    done.push(cur);
    done
}

fn remove_newline_chars(s: &[char]) -> (r: Vec<char>)
    ensures
        r@ == remove_newlines(s@),
{
    let mut r: Vec<char> = Vec::new();
    let mut i: usize = 0;
    while i < s.len()
        invariant
            0 <= i <= s.len(),
            r@ == remove_newlines(s@.take(i as int)),
        decreases s.len() - i,
    {
        assert(s@.take(i + 1).drop_last() == s@.take(i as int));
        if s[i] != '\n' {
            r.push(s[i]);
        }
        i = i + 1;
    }
    assert(s@.take(s.len() as int) == s@);
    r
}

fn split_plain(t: &[char]) -> (r: Vec<Caption>)
    ensures
        captions_view(r@) == spec_split_plain(t@),
{
    let pieces = split_paragraph_chars(t);
    let ghost pv = pieces@.map_values(|l: Vec<char>| l@);
    let mut captions: Vec<Caption> = Vec::new();
    let mut i: usize = 0;
    while i < pieces.len()
        invariant
            0 <= i <= pieces.len(),
            pv == pieces@.map_values(|l: Vec<char>| l@),
            captions_view(captions@) == flatten(
                paragraphs(pv.take(i as int)).map_values(|p: Seq<char>| spec_split_sentences(p)),
            ).map_values(|s: Seq<char>| plain_caption(s)),
        decreases pieces.len() - i,
    {
        assert(pv.take(i + 1).drop_last() == pv.take(i as int));
        let p = trim_chars(&pieces[i]);
        if p.len() > 0 {
            let paragraph = remove_newline_chars(&p);
            let sentences = split_sentences(&paragraph);
            let ghost before = captions_view(captions@);
            let mut k: usize = 0;
            while k < sentences.len()
                invariant
                    0 <= k <= sentences.len(),
                    captions_view(captions@) == before + sentences@.take(k as int).map_values(
                        |l: Vec<char>| plain_caption(l@),
                    ),
                decreases sentences.len() - k,
            {
                let c = Caption { text: string_of(&sentences[k]), start_us: None, end_us: None };
                let ghost cv = captions_view(captions@);
                captions.push(c);
                assert(captions_view(captions@) == cv.push(c.view()));
                assert(sentences@.take(k + 1).map_values(|l: Vec<char>| plain_caption(l@))
                    == sentences@.take(k as int).map_values(|l: Vec<char>| plain_caption(l@)).push(
                    c.view(),
                ));
                k = k + 1;
            }
            proof {
                let ps = paragraphs(pv.take(i as int));
                assert(paragraphs(pv.take(i + 1)) == ps.push(paragraph@));
                let ss = ps.map_values(|p: Seq<char>| spec_split_sentences(p));
                assert(paragraphs(pv.take(i + 1)).map_values(|p: Seq<char>| spec_split_sentences(p))
                    == ss.push(spec_split_sentences(paragraph@)));
                lemma_flatten_push(ss, spec_split_sentences(paragraph@));
                assert(sentences@.take(sentences.len() as int) == sentences@);
                assert(sentences@.map_values(|l: Vec<char>| plain_caption(l@)) == spec_split_sentences(
                    paragraph@,
                ).map_values(|s: Seq<char>| plain_caption(s)));
                assert((flatten(ss) + spec_split_sentences(paragraph@)).map_values(
                    |s: Seq<char>| plain_caption(s),
                ) == flatten(ss).map_values(|s: Seq<char>| plain_caption(s))
                    + spec_split_sentences(paragraph@).map_values(|s: Seq<char>| plain_caption(s)));
            }
        }
        i = i + 1;
    }
    assert(pv.take(pieces.len() as int) == pv);
    captions
}

// ---------------------------------------------------------------------------
// Weight
// ---------------------------------------------------------------------------
/// The number of characters of `s` that are not white space.
pub open spec fn non_space_count(s: Seq<char>) -> nat
    decreases s.len(),
{
    if s.len() == 0 {
        0
    } else {
        non_space_count(s.drop_last()) + if spec_is_whitespace(s.last()) {
            0nat
        } else {
            1nat
        }
    }
}

/// The number of characters of `s` that are not white space, at least one.
pub open spec fn spec_character_weight(s: Seq<char>) -> nat {
    if non_space_count(s) == 0 {
        1
    } else {
        non_space_count(s)
    }
}

/// How much speaking a caption takes: its characters that are not white
/// space, at least one.
pub fn character_weight(text: &str) -> (r: usize)
    ensures
        r == spec_character_weight(text@),
{
    let v = chars_of(text);
    let mut count: usize = 0;
    let mut i: usize = 0;
    while i < v.len()
        invariant
            0 <= i <= v.len(),
            count == non_space_count(v@.take(i as int)),
            count <= i,
        decreases v.len() - i,
    {
        assert(v@.take(i + 1).drop_last() == v@.take(i as int));
        if !is_whitespace(v[i]) {
            count = count + 1;
        }
        i = i + 1;
    }
    assert(v@.take(v.len() as int) == v@);
    if count == 0 {
        1
    } else {
        count
    }
}


// ---------------------------------------------------------------------------
// Laws of the captions
// ---------------------------------------------------------------------------
/// A caption line: at least one character and at most `MAX_LINE_CHARS`.
pub open spec fn fits_line(s: Seq<char>) -> bool {
    1 <= s.len() <= MAX_LINE_CHARS
}

/// Some character of `s` is not white space.
pub open spec fn has_ink(s: Seq<char>) -> bool {
    exists|j: int| 0 <= j < s.len() && !spec_is_whitespace(#[trigger] s[j])
}

proof fn lemma_flatten_all(xs: Seq<Seq<Seq<char>>>)
    requires
        forall|k: int, j: int|
            0 <= k < xs.len() && 0 <= j < xs[k].len() ==> fits_line(#[trigger] xs[k][j]),
    ensures
        forall|i: int| 0 <= i < flatten(xs).len() ==> fits_line(#[trigger] flatten(xs)[i]),
    decreases xs.len(),
{
    if xs.len() > 0 {
        lemma_flatten_all(xs.drop_last());
        let a = flatten(xs.drop_last());
        let b = xs.last();
        assert forall|i: int| 0 <= i < flatten(xs).len() implies fits_line(#[trigger] flatten(xs)[i]) by {
            if i < a.len() {
                assert(flatten(xs)[i] == a[i]);
                assert(xs.drop_last()[0] == xs[0]);
            } else {
                assert(flatten(xs)[i] == b[i - a.len()]);
                assert(fits_line(xs[xs.len() - 1][i - a.len()]));
            }
        }
    }
}

proof fn lemma_chunks_fit(s: Seq<char>)
    requires
        s.len() >= 1,
    ensures
        forall|j: int| 0 <= j < chunks(s).len() ==> fits_line(#[trigger] chunks(s)[j]),
    decreases s.len(),
{
    if s.len() > MAX_LINE_CHARS {
        lemma_chunks_fit(s.skip(MAX_LINE_CHARS as int));
        let rest = chunks(s.skip(MAX_LINE_CHARS as int));
        assert forall|j: int| 0 <= j < chunks(s).len() implies fits_line(#[trigger] chunks(s)[j]) by {
            if j > 0 {
                assert(chunks(s)[j] == rest[j - 1]);
            }
        }
    }
}

proof fn lemma_wrap_fits(sentences: Seq<Seq<char>>)
    requires
        forall|k: int| 0 <= k < sentences.len() ==> (#[trigger] sentences[k]).len() >= 1,
    ensures
        forall|i: int|
            0 <= i < spec_wrap_long_lines(sentences).len() ==> fits_line(
                #[trigger] spec_wrap_long_lines(sentences)[i],
            ),
{
    let xs = sentences.map_values(|s: Seq<char>| chunks(s));
    assert forall|k: int, j: int| 0 <= k < xs.len() && 0 <= j < xs[k].len() implies fits_line(
        #[trigger] xs[k][j],
    ) by {
        lemma_chunks_fit(sentences[k]);
    }
    lemma_flatten_all(xs);
}

/// Scanning for sentence ends keeps only non-empty sentences, and ink in
/// the text shows up in a sentence or in the text since the last end.
proof fn lemma_sentence_scan(s: Seq<char>)
    ensures
        forall|k: int| 0 <= k < sentence_scan(s).0.len() ==> (#[trigger] sentence_scan(s).0[k]).len() >= 1,
        has_ink(s) ==> sentence_scan(s).0.len() > 0 || has_ink(sentence_scan(s).1),
    decreases s.len(),
{
    if s.len() > 0 {
        lemma_sentence_scan(s.drop_last());
        let (done, cur) = sentence_scan(s.drop_last());
        let c = s.last();
        let cur2 = cur.push(c);
        if has_ink(s) {
            let j = choose|j: int| 0 <= j < s.len() && !spec_is_whitespace(#[trigger] s[j]);
            if j < s.len() - 1 {
                assert(s.drop_last()[j] == s[j]);
                assert(has_ink(s.drop_last()));
            }
        }
        if has_ink(cur) {
            let j = choose|j: int| 0 <= j < cur.len() && !spec_is_whitespace(#[trigger] cur[j]);
            assert(cur2[j] == cur[j]);
            assert(has_ink(cur2));
        }
        if !spec_is_whitespace(c) {
            assert(cur2[cur.len() as int] == c);
            assert(has_ink(cur2));
        }
        if is_sentence_end(c) {
            lemma_trim_props(cur2);
            if has_ink(cur2) {
                let j = choose|j: int| 0 <= j < cur2.len() && !spec_is_whitespace(#[trigger] cur2[j]);
                assert(trim(cur2).len() > 0);
            }
        }
    }
}

/// A paragraph with ink splits into caption lines.
proof fn lemma_sentences_fit(p: Seq<char>)
    requires
        has_ink(p),
    ensures
        forall|i: int|
            0 <= i < spec_split_sentences(p).len() ==> fits_line(#[trigger] spec_split_sentences(p)[i]),
{
    lemma_sentence_scan(p);
    let (done, cur) = sentence_scan(p);
    let tail = trim(cur);
    lemma_trim_props(cur);
    if has_ink(cur) {
        let j = choose|j: int| 0 <= j < cur.len() && !spec_is_whitespace(#[trigger] cur[j]);
        assert(tail.len() > 0);
    }
    let sentences = if tail.len() > 0 {
        done.push(tail)
    } else {
        done
    };
    assert(sentences.len() > 0);
    assert forall|k: int| 0 <= k < sentences.len() implies (#[trigger] sentences[k]).len() >= 1 by {
        if k < done.len() {
            assert(sentences[k] == done[k]);
        }
    }
    lemma_wrap_fits(sentences);
}

/// Removing line feeds keeps the ink.
proof fn lemma_remove_newlines_ink(s: Seq<char>)
    requires
        has_ink(s),
    ensures
        has_ink(remove_newlines(s)),
    decreases s.len(),
{
    let c = s.last();
    if !spec_is_whitespace(c) {
        let r = remove_newlines(s.drop_last()).push(c);
        assert(r[r.len() - 1] == c);
    } else {
        let j = choose|j: int| 0 <= j < s.len() && !spec_is_whitespace(#[trigger] s[j]);
        assert(s.drop_last()[j] == s[j]);
        lemma_remove_newlines_ink(s.drop_last());
        let r0 = remove_newlines(s.drop_last());
        let j0 = choose|j: int| 0 <= j < r0.len() && !spec_is_whitespace(#[trigger] r0[j]);
        if c != '\n' {
            assert(r0.push(c)[j0] == r0[j0]);
        }
    }
}

proof fn lemma_paragraphs_ink(pieces: Seq<Seq<char>>)
    ensures
        forall|k: int| 0 <= k < paragraphs(pieces).len() ==> has_ink(#[trigger] paragraphs(pieces)[k]),
    decreases pieces.len(),
{
    if pieces.len() > 0 {
        lemma_paragraphs_ink(pieces.drop_last());
        let rest = paragraphs(pieces.drop_last());
        let p = trim(pieces.last());
        lemma_trim_props(pieces.last());
        if p.len() > 0 {
            assert(!spec_is_whitespace(p[0]));
            assert(has_ink(p));
            lemma_remove_newlines_ink(p);
            assert forall|k: int| 0 <= k < paragraphs(pieces).len() implies has_ink(
                #[trigger] paragraphs(pieces)[k],
            ) by {
                if k < rest.len() {
                    assert(paragraphs(pieces)[k] == rest[k]);
                }
            }
        }
    }
}

/// Copy without SRT timings becomes caption lines of 1 to `MAX_LINE_CHARS`
/// characters, with no timing.
pub proof fn lemma_plain_captions_fit(raw: Seq<char>)
    requires
        !has_arrow(trim(normalize_newlines(raw))),
    ensures
        forall|i: int|
            0 <= i < spec_parse_script(raw).len() ==> {
                &&& fits_line((#[trigger] spec_parse_script(raw)[i]).text)
                &&& spec_parse_script(raw)[i].start_us is None
                &&& spec_parse_script(raw)[i].end_us is None
            },
{
    let t = trim(normalize_newlines(raw));
    if t.len() > 0 {
        let ps = paragraphs(split_paragraphs(t));
        lemma_paragraphs_ink(split_paragraphs(t));
        let xs = ps.map_values(|p: Seq<char>| spec_split_sentences(p));
        assert forall|k: int, j: int| 0 <= k < xs.len() && 0 <= j < xs[k].len() implies fits_line(
            #[trigger] xs[k][j],
        ) by {
            lemma_sentences_fit(ps[k]);
        }
        lemma_flatten_all(xs);
    }
}


/// Every caption read so far has text, trimmed.
pub open spec fn captions_trimmed(cs: Seq<CaptionView>) -> bool {
    forall|i: int| 0 <= i < cs.len() ==> (#[trigger] cs[i]).text.len() >= 1 && is_trimmed(cs[i].text)
}

proof fn lemma_flush_trimmed(st: SrtView)
    requires
        captions_trimmed(st.captions),
    ensures
        captions_trimmed(srt_flush(st).captions),
{
    if st.text_lines.len() > 0 {
        lemma_trim_props(concat(st.text_lines));
        let out = srt_flush(st).captions;
        assert forall|i: int| 0 <= i < out.len() implies (#[trigger] out[i]).text.len() >= 1
            && is_trimmed(out[i].text) by {
            if i < st.captions.len() {
                assert(out[i] == st.captions[i]);
            }
        }
    }
}

proof fn lemma_scan_trimmed(ls: Seq<Seq<char>>)
    ensures
        captions_trimmed(srt_scan(ls).captions),
    decreases ls.len(),
{
    if ls.len() > 0 {
        lemma_scan_trimmed(ls.drop_last());
        lemma_flush_trimmed(srt_scan(ls.drop_last()));
    }
}

/// Every caption of an SRT script has text, without surrounding white
/// space.
pub proof fn lemma_srt_captions_trimmed(raw: Seq<char>)
    ensures
        has_arrow(trim(normalize_newlines(raw))) ==> captions_trimmed(spec_parse_script(raw)),
{
    let t = trim(normalize_newlines(raw));
    lemma_scan_trimmed(lines(t));
    lemma_flush_trimmed(srt_scan(lines(t)));
}

} // verus!
