//! Character-level text helpers shared by the parsers and formatters.
use vstd::prelude::*;

verus! {

// ---------------------------------------------------------------------------
// Characters
// ---------------------------------------------------------------------------
/// The Unicode `White_Space` property, which `char::is_whitespace` tests.
pub open spec fn spec_is_whitespace(c: char) -> bool {
    let u = c as u32;
    ||| 0x09 <= u <= 0x0d
    ||| u == 0x20
    ||| u == 0x85
    ||| u == 0xa0
    ||| u == 0x1680
    ||| 0x2000 <= u <= 0x200a
    ||| u == 0x2028
    ||| u == 0x2029
    ||| u == 0x202f
    ||| u == 0x205f
    ||| u == 0x3000
}

pub fn is_whitespace(c: char) -> (r: bool)
    ensures
        r == spec_is_whitespace(c),
{
    let u = c as u32;
    (0x09 <= u && u <= 0x0d) || u == 0x20 || u == 0x85 || u == 0xa0 || u == 0x1680 || (0x2000
        <= u && u <= 0x200a) || u == 0x2028 || u == 0x2029 || u == 0x202f || u == 0x205f || u
        == 0x3000
}

pub open spec fn spec_is_ascii_digit(c: char) -> bool {
    '0' <= c <= '9'
}

pub fn is_ascii_digit(c: char) -> (r: bool)
    ensures
        r == spec_is_ascii_digit(c),
{
    '0' <= c && c <= '9'
}

pub open spec fn all_ascii_digits(s: Seq<char>) -> bool {
    forall|i: int| 0 <= i < s.len() ==> spec_is_ascii_digit(#[trigger] s[i])
}

pub fn is_all_ascii_digits(s: &[char]) -> (r: bool)
    ensures
        r == all_ascii_digits(s@),
{
    let mut i: usize = 0;
    while i < s.len()
        invariant
            0 <= i <= s.len(),
            forall|j: int| 0 <= j < i ==> spec_is_ascii_digit(#[trigger] s@[j]),
        decreases s.len() - i,
    {
        if !is_ascii_digit(s[i]) {
            return false;
        }
        i = i + 1;
    }
    true
}

// ---------------------------------------------------------------------------
// Conversions between `str`/`String` and character vectors
// ---------------------------------------------------------------------------
/// Appends one character to a `String` (`String::push`).
#[verifier::external_body]
pub(crate) fn push_char(s: &mut String, c: char)
    ensures
        final(s)@ == old(s)@.push(c),
{
    s.push(c);
}

/// The characters of `s`, in order.
pub fn chars_of(s: &str) -> (v: Vec<char>)
    ensures
        v@ == s@,
{
    let mut v: Vec<char> = Vec::new();
    for c in it: s.chars()
        invariant
            v@ == it.seq().take(it.index() as int),
            it.seq() == s@,
    {
        v.push(c);
    }
    v
}

/// A `String` holding the characters of `v`.
pub fn string_of(v: &[char]) -> (s: String)
    ensures
        s@ == v@,
{
    let mut s = String::new();
    let mut i: usize = 0;
    while i < v.len()
        invariant
            0 <= i <= v.len(),
            s@ == v@.take(i as int),
        decreases v.len() - i,
    {
        push_char(&mut s, v[i]);
        assert(v@.take(i + 1) == v@.take(i as int).push(v@[i as int]));
        i = i + 1;
    }
    assert(v@.take(v.len() as int) == v@);
    s
}

/// Appends all characters of `t` to `s`.
pub fn push_str(s: &mut String, t: &str)
    ensures
        final(s)@ == old(s)@ + t@,
{
    let cs = chars_of(t);
    push_chars(s, &cs);
}

/// Appends all characters of `v` to `s`.
pub fn push_chars(s: &mut String, v: &[char])
    ensures
        final(s)@ == old(s)@ + v@,
{
    let ghost start = s@;
    let mut i: usize = 0;
    while i < v.len()
        invariant
            0 <= i <= v.len(),
            s@ == start + v@.take(i as int),
        decreases v.len() - i,
    {
        push_char(s, v[i]);
        assert(v@.take(i + 1) == v@.take(i as int).push(v@[i as int]));
        i = i + 1;
    }
    assert(v@.take(v.len() as int) == v@);
}

/// A copy of `v[lo..hi]`.
pub fn sub_chars(v: &[char], lo: usize, hi: usize) -> (r: Vec<char>)
    requires
        lo <= hi <= v.len(),
    ensures
        r@ == v@.subrange(lo as int, hi as int),
{
    let mut r: Vec<char> = Vec::new();
    let mut i: usize = lo;
    while i < hi
        invariant
            lo <= i <= hi <= v.len(),
            r@ == v@.subrange(lo as int, i as int),
        decreases hi - i,
    {
        r.push(v[i]);
        i = i + 1;
    }
    r
}

// ---------------------------------------------------------------------------
// Trimming
// ---------------------------------------------------------------------------
/// `s` without its leading white space.
pub open spec fn trim_start(s: Seq<char>) -> Seq<char>
    decreases s.len(),
{
    if s.len() > 0 && spec_is_whitespace(s[0]) {
        trim_start(s.drop_first())
    } else {
        s
    }
}

/// `s` without its trailing white space.
pub open spec fn trim_end(s: Seq<char>) -> Seq<char>
    decreases s.len(),
{
    if s.len() > 0 && spec_is_whitespace(s.last()) {
        trim_end(s.drop_last())
    } else {
        s
    }
}

/// `s` without leading and trailing white space (`str::trim`).
pub open spec fn trim(s: Seq<char>) -> Seq<char> {
    trim_end(trim_start(s))
}

proof fn lemma_trim_start_skip(s: Seq<char>, i: int)
    requires
        0 <= i <= s.len(),
        forall|j: int| 0 <= j < i ==> spec_is_whitespace(#[trigger] s[j]),
    ensures
        trim_start(s) == trim_start(s.skip(i)),
    decreases i,
{
    if i > 0 {
        assert(s.drop_first().skip(i - 1) == s.skip(i));
        lemma_trim_start_skip(s.drop_first(), i - 1);
    } else {
        assert(s.skip(0) == s);
    }
}

proof fn lemma_trim_end_take(s: Seq<char>, i: int)
    requires
        0 <= i <= s.len(),
        forall|j: int| i <= j < s.len() ==> spec_is_whitespace(#[trigger] s[j]),
    ensures
        trim_end(s) == trim_end(s.take(i)),
    decreases s.len() - i,
{
    if i < s.len() {
        assert(s.drop_last().take(i) == s.take(i));
        lemma_trim_end_take(s.drop_last(), i);
    } else {
        assert(s.take(i) == s);
    }
}

/// Whether `s` has no leading or trailing white space.
pub open spec fn is_trimmed(s: Seq<char>) -> bool {
    s.len() > 0 ==> !spec_is_whitespace(s[0]) && !spec_is_whitespace(s.last())
}

pub proof fn lemma_trim_props(s: Seq<char>)
    ensures
        is_trimmed(trim(s)),
        trim(s).len() == 0 <==> (forall|j: int| 0 <= j < s.len() ==> spec_is_whitespace(#[trigger] s[j])),
    decreases s.len(),
{
    lemma_trim_start_props(s);
    lemma_trim_end_props(trim_start(s));
    if trim(s).len() == 0 {
        if trim_start(s).len() > 0 {
            lemma_trim_end_all_ws(trim_start(s));
        }
    }
}

proof fn lemma_trim_start_props(s: Seq<char>)
    ensures
        trim_start(s).len() > 0 ==> !spec_is_whitespace(trim_start(s)[0]),
        trim_start(s).len() <= s.len(),
        trim_start(s) == s.skip(s.len() - trim_start(s).len()),
        trim_start(s).len() == 0 ==> (forall|j: int| 0 <= j < s.len() ==> spec_is_whitespace(#[trigger] s[j])),
    decreases s.len(),
{
    if s.len() > 0 && spec_is_whitespace(s[0]) {
        lemma_trim_start_props(s.drop_first());
        assert(s.drop_first().skip(s.drop_first().len() - trim_start(s).len()) == s.skip(
            s.len() - trim_start(s).len(),
        ));
        if trim_start(s).len() == 0 {
            assert forall|j: int| 0 <= j < s.len() implies spec_is_whitespace(#[trigger] s[j]) by {
                if j > 0 {
                    assert(s[j] == s.drop_first()[j - 1]);
                }
            }
        }
    } else {
        assert(s.skip(0) == s);
    }
}

proof fn lemma_trim_end_props(s: Seq<char>)
    ensures
        trim_end(s).len() > 0 ==> !spec_is_whitespace(trim_end(s).last()),
        trim_end(s).len() <= s.len(),
        trim_end(s) == s.take(trim_end(s).len() as int),
        trim_end(s).len() > 0 && s.len() > 0 && !spec_is_whitespace(s[0]) ==> !spec_is_whitespace(
            trim_end(s)[0],
        ),
    decreases s.len(),
{
    if s.len() > 0 && spec_is_whitespace(s.last()) {
        lemma_trim_end_props(s.drop_last());
        assert(s.drop_last().take(trim_end(s).len() as int) == s.take(trim_end(s).len() as int));
    } else {
        assert(s.take(s.len() as int) == s);
    }
}

proof fn lemma_trim_end_all_ws(s: Seq<char>)
    requires
        trim_end(s).len() == 0,
    ensures
        forall|j: int| 0 <= j < s.len() ==> spec_is_whitespace(#[trigger] s[j]),
    decreases s.len(),
{
    if s.len() > 0 {
        lemma_trim_end_all_ws(s.drop_last());
        assert forall|j: int| 0 <= j < s.len() implies spec_is_whitespace(#[trigger] s[j]) by {
            if j < s.len() - 1 {
                assert(s[j] == s.drop_last()[j]);
            }
        }
    }
}

/// `v` without leading and trailing white space.
pub fn trim_chars(v: &[char]) -> (r: Vec<char>)
    ensures
        r@ == trim(v@),
{
    let mut lo: usize = 0;
    while lo < v.len() && is_whitespace(v[lo])
        invariant
            0 <= lo <= v.len(),
            forall|j: int| 0 <= j < lo ==> spec_is_whitespace(#[trigger] v@[j]),
        decreases v.len() - lo,
    {
        lo = lo + 1;
    }
    proof {
        lemma_trim_start_skip(v@, lo as int);
        if lo < v.len() {
            assert(!spec_is_whitespace(v@.skip(lo as int)[0]));
        }
        assert(trim_start(v@) == v@.skip(lo as int));
    }
    let mut hi: usize = v.len();
    while hi > lo && is_whitespace(v[hi - 1])
        invariant
            lo <= hi <= v.len(),
            forall|j: int| hi <= j < v.len() ==> spec_is_whitespace(#[trigger] v@[j]),
        decreases hi,
    {
        hi = hi - 1;
    }
    proof {
        let t = v@.skip(lo as int);
        let k = (hi - lo) as int;
        assert forall|j: int| k <= j < t.len() implies spec_is_whitespace(#[trigger] t[j]) by {
            assert(t[j] == v@[j + lo]);
        }
        lemma_trim_end_take(t, k);
        if k > 0 {
            assert(t.take(k).last() == v@[hi - 1]);
        }
        assert(trim_end(t.take(k)) == t.take(k));
        assert(t.take(k) == v@.subrange(lo as int, hi as int));
    }
    sub_chars(v, lo, hi)
}

// ---------------------------------------------------------------------------
// Splitting
// ---------------------------------------------------------------------------
/// The pieces of `s` between occurrences of `sep` (`str::split` with a
/// character pattern); there is always at least one piece.
pub open spec fn split_char(s: Seq<char>, sep: char) -> Seq<Seq<char>>
    decreases s.len(),
{
    if s.len() == 0 {
        seq![Seq::<char>::empty()]
    } else {
        let r = split_char(s.drop_last(), sep);
        if s.last() == sep {
            r.push(Seq::<char>::empty())
        } else {
            r.update(r.len() - 1, r.last().push(s.last()))
        }
    }
}

pub proof fn lemma_split_char_len(s: Seq<char>, sep: char)
    ensures
        split_char(s, sep).len() >= 1,
    decreases s.len(),
{
    if s.len() > 0 {
        lemma_split_char_len(s.drop_last(), sep);
    }
}

/// `str::lines` on text without carriage returns: the pieces between line
/// feeds, where a final line feed does not start another line.
pub open spec fn lines(s: Seq<char>) -> Seq<Seq<char>> {
    if s.len() == 0 {
        Seq::empty()
    } else if s.last() == '\n' {
        split_char(s.drop_last(), '\n')
    } else {
        split_char(s, '\n')
    }
}

/// The pieces of `v` between occurrences of `sep`.
pub fn split_on(v: &[char], sep: char) -> (r: Vec<Vec<char>>)
    ensures
        r@.len() == split_char(v@, sep).len(),
        forall|i: int| 0 <= i < r@.len() ==> #[trigger] r@[i]@ == split_char(v@, sep)[i],
{
    let mut done: Vec<Vec<char>> = Vec::new();
    let mut cur: Vec<char> = Vec::new();
    let mut i: usize = 0;
    while i < v.len()
        invariant
            0 <= i <= v.len(),
            done@.len() + 1 == split_char(v@.take(i as int), sep).len(),
            forall|k: int| 0 <= k < done@.len() ==> #[trigger] done@[k]@ == split_char(v@.take(i as int), sep)[k],
            cur@ == split_char(v@.take(i as int), sep).last(),
        decreases v.len() - i,
    {
        assert(v@.take(i + 1).drop_last() == v@.take(i as int));
        proof {
            lemma_split_char_len(v@.take(i as int), sep);
        }
        if v[i] == sep {
            let piece = cur;
            done.push(piece);
            cur = Vec::new();
        } else {
            cur.push(v[i]);
        }
        i = i + 1;
    }
    assert(v@.take(v.len() as int) == v@);
    proof {
        lemma_split_char_len(v@, sep);
    }
    done.push(cur);
    done
}

// ---------------------------------------------------------------------------
// Joining
// ---------------------------------------------------------------------------
/// The concatenation of all pieces.
pub open spec fn concat(pieces: Seq<Seq<char>>) -> Seq<char>
    decreases pieces.len(),
{
    if pieces.len() == 0 {
        Seq::empty()
    } else {
        concat(pieces.drop_last()) + pieces.last()
    }
}

// ---------------------------------------------------------------------------
// Integers
// ---------------------------------------------------------------------------
/// The value of a string of ASCII digits.
pub open spec fn digits_value(s: Seq<char>) -> nat
    decreases s.len(),
{
    if s.len() == 0 {
        0
    } else {
        digits_value(s.drop_last()) * 10 + (s.last() as nat - '0' as nat) as nat
    }
}

/// `u64::from_str` (and the same rule for any unsigned type up to `max`):
/// an optional `+`, then one or more ASCII digits, with a value at most `max`.
pub open spec fn parse_unsigned(s: Seq<char>, max: nat) -> Option<nat> {
    let body = if s.len() > 0 && s[0] == '+' {
        s.drop_first()
    } else {
        s
    };
    if body.len() > 0 && all_ascii_digits(body) && digits_value(body) <= max {
        Some(digits_value(body))
    } else {
        None
    }
}

/// `i32::from_str`: an optional sign, then one or more ASCII digits, with a
/// value in range.
pub open spec fn parse_i32_spec(s: Seq<char>) -> Option<int> {
    if s.len() > 0 && s[0] == '-' {
        let body = s.drop_first();
        if body.len() > 0 && all_ascii_digits(body) && digits_value(body) <= 0x8000_0000 {
            Some(-digits_value(body))
        } else {
            None
        }
    } else {
        match parse_unsigned(s, 0x7fff_ffff) {
            Some(v) => Some(v as int),
            None => None,
        }
    }
}

proof fn lemma_digits_value_mono(s: Seq<char>, i: int)
    requires
        0 <= i <= s.len(),
        all_ascii_digits(s),
    ensures
        digits_value(s.take(i)) <= digits_value(s),
    decreases s.len() - i,
{
    if i < s.len() {
        assert(s.drop_last().take(i) == s.take(i));
        assert(all_ascii_digits(s.drop_last())) by {
            assert forall|j: int| 0 <= j < s.drop_last().len() implies spec_is_ascii_digit(
                #[trigger] s.drop_last()[j],
            ) by {
                assert(s.drop_last()[j] == s[j]);
            }
        }
        lemma_digits_value_mono(s.drop_last(), i);
    } else {
        assert(s.take(i) == s);
    }
}

/// The value of the ASCII digits `v[lo..hi]`, or `None` when it exceeds `max`.
fn digits_upto(v: &[char], lo: usize, hi: usize, max: u64) -> (r: Option<u64>)
    requires
        lo <= hi <= v.len(),
        all_ascii_digits(v@.subrange(lo as int, hi as int)),
    ensures
        r == (if digits_value(v@.subrange(lo as int, hi as int)) <= max {
            Some(digits_value(v@.subrange(lo as int, hi as int)) as u64)
        } else {
            None::<u64>
        }),
{
    let ghost s = v@.subrange(lo as int, hi as int);
    let mut acc: u64 = 0;
    let mut i: usize = lo;
    while i < hi
        invariant
            lo <= i <= hi <= v.len(),
            s == v@.subrange(lo as int, hi as int),
            all_ascii_digits(s),
            acc as nat == digits_value(s.take(i - lo)),
            acc <= max,
        decreases hi - i,
    {
        assert(s.take(i - lo + 1).drop_last() == s.take(i - lo));
        assert(s.take(i - lo + 1).last() == v@[i as int]);
        assert(spec_is_ascii_digit(s[i - lo]));
        let d = (v[i] as u32 - '0' as u32) as u64;
        if d > max || acc > (max - d) / 10 {
            proof {
                lemma_digits_value_mono(s, i - lo + 1);
                assert(digits_value(s.take(i - lo + 1)) == acc * 10 + d);
                if d <= max {
                    assert(acc * 10 + d > max) by (nonlinear_arith)
                        requires
                            acc > (max - d) / 10,
                            d <= max,
                    ;
                }
            }
            return None;
        }
        proof {
            assert(acc * 10 + d <= max) by (nonlinear_arith)
                requires
                    acc <= (max - d) / 10,
                    d <= 9,
                    acc <= max,
            ;
        }
        acc = acc * 10 + d;
        i = i + 1;
    }
    assert(s.take(hi - lo) == s);
    Some(acc)
}

/// Parses an unsigned integer as `u64::from_str` does, with an upper bound.
pub fn parse_unsigned_chars(v: &[char], max: u64) -> (r: Option<u64>)
    ensures
        r == (match parse_unsigned(v@, max as nat) {
            Some(n) => Some(n as u64),
            None => None::<u64>,
        }),
{
    let lo: usize = if v.len() > 0 && v[0] == '+' {
        1
    } else {
        0
    };
    let ghost body = if v@.len() > 0 && v@[0] == '+' {
        v@.drop_first()
    } else {
        v@
    };
    assert(body == v@.subrange(lo as int, v.len() as int));
    if lo == v.len() {
        return None;
    }
    let mut i: usize = lo;
    while i < v.len()
        invariant
            lo <= i <= v.len(),
            body == v@.subrange(lo as int, v.len() as int),
            body == (if v@.len() > 0 && v@[0] == '+' { v@.drop_first() } else { v@ }),
            forall|j: int| lo <= j < i ==> spec_is_ascii_digit(#[trigger] v@[j]),
        decreases v.len() - i,
    {
        if !is_ascii_digit(v[i]) {
            assert(!spec_is_ascii_digit(body[i - lo]));
            assert(!all_ascii_digits(body));
            return None;
        }
        i = i + 1;
    }
    assert(all_ascii_digits(body)) by {
        assert forall|j: int| 0 <= j < body.len() implies spec_is_ascii_digit(#[trigger] body[j]) by {
            assert(body[j] == v@[j + lo]);
        }
    }
    digits_upto(v, lo, v.len(), max)
}

/// Parses a signed 32-bit integer as `i32::from_str` does.
pub fn parse_i32_chars(v: &[char]) -> (r: Option<i32>)
    ensures
        r == (match parse_i32_spec(v@) {
            Some(n) => Some(n as i32),
            None => None::<i32>,
        }),
{
    if v.len() > 0 && v[0] == '-' {
        let rest = sub_chars(v, 1, v.len());
        assert(rest@ == v@.drop_first());
        if rest.len() == 0 || !is_all_ascii_digits(&rest) {
            return None;
        }
        assert(rest@.subrange(0, rest@.len() as int) == rest@);
        match digits_upto(&rest, 0, rest.len(), 0x8000_0000) {
            Some(n) => {
                if n == 0x8000_0000 {
                    Some(i32::MIN)
                } else {
                    Some(-(n as i32))
                }
            },
            None => None,
        }
    } else {
        match parse_unsigned_chars(v, 0x7fff_ffff) {
            Some(n) => Some(n as i32),
            None => None,
        }
    }
}

// ---------------------------------------------------------------------------
// Decimal formatting
// ---------------------------------------------------------------------------
/// The decimal digits of `n`, without leading zeros ("0" for zero).
pub open spec fn decimal(n: nat) -> Seq<char>
    decreases n,
{
    if n < 10 {
        seq![digit_char(n)]
    } else {
        decimal(n / 10).push(digit_char(n % 10))
    }
}

pub open spec fn digit_char(d: nat) -> char {
    (d + '0' as nat) as char
}

/// `s` left-padded with zeros to at least `width` characters.
pub open spec fn zero_pad(s: Seq<char>, width: nat) -> Seq<char> {
    if s.len() >= width {
        s
    } else {
        Seq::new((width - s.len()) as nat, |_i: int| '0') + s
    }
}

/// `format!("{:0w$}", n)` for a signed integer: the sign first, then zeros up
/// to the total width.
pub open spec fn format_padded(n: int, width: nat) -> Seq<char> {
    if n < 0 {
        seq!['-'] + zero_pad(decimal((-n) as nat), if width >= 1 { (width - 1) as nat } else { 0 })
    } else {
        zero_pad(decimal(n as nat), width)
    }
}

/// The decimal digits of `n`.
pub fn decimal_chars(n: u64) -> (r: Vec<char>)
    ensures
        r@ == decimal(n as nat),
    decreases n,
{
    if n < 10 {
        let c = char_of_digit(n);
        let mut r = Vec::new();
        r.push(c);
        assert(r@ == seq![digit_char(n as nat)]);
        r
    } else {
        let mut r = decimal_chars(n / 10);
        r.push(char_of_digit(n % 10));
        r
    }
}

fn char_of_digit(d: u64) -> (c: char)
    requires
        d < 10,
    ensures
        c == digit_char(d as nat),
{
    if d == 0 {
        '0'
    } else if d == 1 {
        '1'
    } else if d == 2 {
        '2'
    } else if d == 3 {
        '3'
    } else if d == 4 {
        '4'
    } else if d == 5 {
        '5'
    } else if d == 6 {
        '6'
    } else if d == 7 {
        '7'
    } else if d == 8 {
        '8'
    } else {
        '9'
    }
}

/// Appends `format!("{:0w$}", n)` to `out`.
pub fn push_padded(out: &mut String, n: i64, width: usize)
    requires
        n > i64::MIN,
    ensures
        final(out)@ == old(out)@ + format_padded(n as int, width as nat),
{
    let ghost start = out@;
    let mag: u64 = if n < 0 {
        (-n) as u64
    } else {
        n as u64
    };
    let digits = decimal_chars(mag);
    let w: usize = if n < 0 {
        push_char(out, '-');
        if width >= 1 {
            width - 1
        } else {
            0
        }
    } else {
        width
    };
    let ghost mid = out@;
    let mut k: usize = digits.len();
    while k < w
        invariant
            digits.len() <= k <= w || (w < digits.len() && k == digits.len()),
            out@ == mid + Seq::new((k - digits.len()) as nat, |_i: int| '0'),
        decreases w - k,
    {
        push_char(out, '0');
        assert(Seq::new((k + 1 - digits.len()) as nat, |_i: int| '0') == Seq::new(
            (k - digits.len()) as nat,
            |_i: int| '0',
        ).push('0'));
        k = k + 1;
    }
    push_chars(out, &digits);
    proof {
        if digits.len() >= w {
            assert(Seq::new(0, |_i: int| '0') + digits@ == digits@);
        }
    }
}

/// Appends the decimal digits of `n`.
pub fn push_decimal(out: &mut String, n: u64)
    ensures
        final(out)@ == old(out)@ + decimal(n as nat),
{
    let digits = decimal_chars(n);
    push_chars(out, &digits);
}

/// A `String` holding `v[lo..hi]`.
pub fn string_of_range(v: &[char], lo: usize, hi: usize) -> (s: String)
    requires
        lo <= hi <= v.len(),
    ensures
        s@ == v@.subrange(lo as int, hi as int),
{
    let part = sub_chars(v, lo, hi);
    string_of(&part)
}

/// Whether two character slices are equal.
pub fn chars_eq(a: &[char], b: &[char]) -> (r: bool)
    ensures
        r == (a@ == b@),
{
    if a.len() != b.len() {
        return false;
    }
    let mut i: usize = 0;
    while i < a.len()
        invariant
            0 <= i <= a.len(),
            a.len() == b.len(),
            forall|j: int| 0 <= j < i ==> a@[j] == b@[j],
        decreases a.len() - i,
    {
        if a[i] != b[i] {
            return false;
        }
        i = i + 1;
    }
    assert(a@ =~= b@);
    true
}

/// Whether the characters `a` spell the text `lit`.
pub fn chars_eq_str(a: &[char], lit: &str) -> (r: bool)
    ensures
        r == (a@ == lit@),
{
    let b = chars_of(lit);
    chars_eq(a, &b)
}


// ---------------------------------------------------------------------------
// Reading back what was written
// ---------------------------------------------------------------------------
/// The decimal digits of `n` are digits that read back as `n`; a number
/// below 10, 100 or 10000 takes at most 1, 2 or 4 of them.
pub proof fn lemma_decimal_reads_back(n: nat)
    ensures
        decimal(n).len() >= 1,
        all_ascii_digits(decimal(n)),
        digits_value(decimal(n)) == n,
        n < 10 ==> decimal(n).len() == 1,
        n < 100 ==> decimal(n).len() <= 2,
        n < 1000 ==> decimal(n).len() <= 3,
        n < 10000 ==> decimal(n).len() <= 4,
    decreases n,
{
    assert(digit_char(n % 10) as nat == n % 10 + '0' as nat);
    if n < 10 {
        let t = seq![digit_char(n)];
        assert(t.drop_last() == Seq::<char>::empty());
        assert(t.last() as nat - '0' as nat == n);
        assert(digits_value(t) == digits_value(t.drop_last()) * 10 + (t.last() as nat - '0' as nat) as nat);
    } else {
        lemma_decimal_reads_back(n / 10);
        let s = decimal(n / 10);
        let t = s.push(digit_char(n % 10));
        assert(t.drop_last() == s);
        assert(n == (n / 10) * 10 + n % 10);
        assert(t.last() as nat - '0' as nat == n % 10);
        assert(digits_value(t) == digits_value(s) * 10 + (t.last() as nat - '0' as nat) as nat);
        assert forall|i: int| 0 <= i < t.len() implies spec_is_ascii_digit(#[trigger] t[i]) by {
            if i < s.len() {
                assert(t[i] == s[i]);
            }
        }
    }
}

/// Leading zeros change neither the digits' being digits nor their value.
pub proof fn lemma_zero_pad_reads_back(s: Seq<char>, width: nat)
    requires
        all_ascii_digits(s),
    ensures
        all_ascii_digits(zero_pad(s, width)),
        digits_value(zero_pad(s, width)) == digits_value(s),
        zero_pad(s, width).len() == if s.len() >= width {
            s.len()
        } else {
            width
        },
{
    if s.len() < width {
        let k = (width - s.len()) as nat;
        let z = Seq::new(k, |_i: int| '0');
        lemma_zeros_then_digits(k, s);
        assert forall|i: int| 0 <= i < (z + s).len() implies spec_is_ascii_digit(#[trigger] (z + s)[i]) by {
            if i >= k {
                assert((z + s)[i] == s[i - k]);
            }
        }
    }
}

proof fn lemma_zeros_then_digits(k: nat, s: Seq<char>)
    ensures
        digits_value(Seq::new(k, |_i: int| '0') + s) == digits_value(s),
    decreases s.len(), k,
{
    let z = Seq::new(k, |_i: int| '0');
    if s.len() == 0 {
        assert(z + s == z);
        if k > 0 {
            lemma_zeros_then_digits((k - 1) as nat, s);
            assert(z.drop_last() == Seq::new((k - 1) as nat, |_i: int| '0') + s);
        }
    } else {
        lemma_zeros_then_digits(k, s.drop_last());
        assert((z + s).drop_last() == z + s.drop_last());
    }
}

/// Text without the separator does not split.
pub proof fn lemma_split_whole(t: Seq<char>, sep: char)
    requires
        !t.contains(sep),
    ensures
        split_char(t, sep) == seq![t],
    decreases t.len(),
{
    if t.len() > 0 {
        assert(!t.drop_last().contains(sep)) by {
            if t.drop_last().contains(sep) {
                let i = choose|i: int| 0 <= i < t.drop_last().len() && t.drop_last()[i] == sep;
                assert(t[i] == sep);
            }
        }
        lemma_split_whole(t.drop_last(), sep);
        assert(t.last() != sep) by {
            assert(t[t.len() - 1] == t.last());
        }
        assert(t.drop_last().push(t.last()) == t);
        assert(seq![t.drop_last()].update(0, t.drop_last().push(t.last())) =~= seq![t]);
    } else {
        assert(t =~= Seq::<char>::empty());
    }
}

/// Splitting text that ends with the separator and a piece without it
/// gives the pieces before, then that piece.
pub proof fn lemma_split_then(s: Seq<char>, sep: char, t: Seq<char>)
    requires
        !t.contains(sep),
    ensures
        split_char(s + seq![sep] + t, sep) == split_char(s, sep).push(t),
    decreases t.len(),
{
    let u = s + seq![sep] + t;
    if t.len() == 0 {
        assert(u.drop_last() == s);
        assert(u.last() == sep);
        assert(t == Seq::<char>::empty());
    } else {
        assert(!t.drop_last().contains(sep)) by {
            if t.drop_last().contains(sep) {
                let i = choose|i: int| 0 <= i < t.drop_last().len() && t.drop_last()[i] == sep;
                assert(t[i] == sep);
            }
        }
        lemma_split_then(s, sep, t.drop_last());
        assert(u.drop_last() == s + seq![sep] + t.drop_last());
        assert(u.last() == t[t.len() - 1]);
        assert(t.last() != sep);
        assert(t.drop_last().push(t.last()) == t);
        let r = split_char(s, sep).push(t.drop_last());
        assert(r.update(r.len() - 1, r.last().push(u.last())) =~= split_char(s, sep).push(t));
    }
}

} // verus!
