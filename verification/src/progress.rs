//! The progress parser: turns the line-oriented text that the external tools
//! print into typed progress updates.
//!
//! Progress is carried as an integer number of hundredths of a percent, so a
//! value of 10000 means 100%.  Values parsed from tool output are clamped
//! into that range; a malformed line never fails the surrounding job, it is
//! simply ignored.

use vstd::prelude::*;
use crate::text::all_digits;
use crate::text::all_digits_exec;
use crate::text::chars_of;
use crate::text::contains_lit;
use crate::text::contains_seq;
use crate::text::digit_val;
use crate::text::digits_end;
use crate::text::digits_end_exec;
use crate::text::lemma_digits_end;
use crate::text::rstrip_char;
use crate::text::rstrip_char_exec;
use crate::text::rtrim_end;
use crate::text::rtrim_exec;
use crate::text::skip_char_exec;
use crate::text::skip_char_from;
use crate::text::starts_with;
use crate::text::starts_with_lit;
use crate::text::digits_val;
use crate::text::find_char_in;
use crate::text::find_from;
use crate::text::first_char_in;
use crate::text::first_match_from;
use crate::text::is_digit;
use crate::text::is_space;
use crate::text::lemma_digits_val_nonneg;
use crate::text::lemma_first_char_in;
use crate::text::lemma_first_match_from;
use crate::text::parse_u64;
use crate::text::skip_spaces;
use crate::text::skip_spaces_exec;
use crate::text::sub_vec;
use crate::text::token_end;
use crate::text::token_end_exec;
use crate::text::token_start;
use crate::text::token_start_exec;

verus! {

/// A normalized progress update parsed from one line of tool output.
/// `percentage` is in hundredths of a percent, between 0 and 10000.
#[derive(Debug, Clone)]
pub struct ProgressInfo {
    pub percentage: u32,
    pub speed: Option<String>,
    pub eta: Option<String>,
}

/// `tok` with every trailing `%` removed.
pub open spec fn strip_pct(tok: Seq<char>) -> Seq<char>
    decreases tok.len(),
{
    if tok.len() > 0 && tok.last() == '%' {
        strip_pct(tok.drop_last())
    } else {
        tok
    }
}

/// Whether `s` is a plain decimal numeral: digits with at most one decimal
/// point and at least one digit.
pub open spec fn valid_decimal(s: Seq<char>) -> bool {
    match first_char_in(s, 0, s.len() as int, '.') {
        None => s.len() > 0 && all_digits(s),
        Some(d) => s.len() > 1 && all_digits(s.subrange(0, d)) && all_digits(
            s.subrange(d + 1, s.len() as int),
        ) && first_char_in(s, d + 1, s.len() as int, '.') is None,
    }
}

/// The value of the decimal numeral `s` in hundredths of a unit, keeping at
/// most two fractional digits.
pub open spec fn spec_decimal_bp(s: Seq<char>) -> int {
    match first_char_in(s, 0, s.len() as int, '.') {
        None => digits_val(s) * 100,
        Some(d) => {
            let f = s.subrange(d + 1, s.len() as int);
            digits_val(s.subrange(0, d)) * 100 + (if f.len() == 0 {
                0
            } else if f.len() == 1 {
                digit_val(f[0]) * 10
            } else {
                digits_val(f.subrange(0, 2))
            })
        },
    }
}

/// The progress a percentage token stands for, in hundredths of a percent:
/// its numeral read after trailing `%` signs are dropped, clamped to 10000,
/// and 0 when the token is not a numeral.
pub open spec fn spec_token_bp(tok: Seq<char>) -> int {
    let num = strip_pct(tok);
    if valid_decimal(num) {
        if spec_decimal_bp(num) <= 10000 {
            spec_decimal_bp(num)
        } else {
            10000
        }
    } else {
        0
    }
}

/// Whether position `p` ends a whitespace-delimited token whose last
/// character is `%`.
pub open spec fn is_pct_token_end(s: Seq<char>, p: int) -> bool {
    &&& 0 <= p < s.len()
    &&& s[p] == '%'
    &&& (p + 1 == s.len() || is_space(s[p + 1]))
}

/// The first position that ends a `%`-token, at or after `from`.
pub open spec fn first_pct_end_from(s: Seq<char>, from: int) -> Option<int>
    decreases s.len() - from
        when 0 <= from <= s.len()
{
    if from >= s.len() {
        None
    } else if is_pct_token_end(s, from) {
        Some(from)
    } else {
        first_pct_end_from(s, from + 1)
    }
}

/// What `first_pct_end_from` returns.
pub proof fn lemma_first_pct_end_from(s: Seq<char>, from: int)
    requires
        0 <= from <= s.len(),
    ensures
        match first_pct_end_from(s, from) {
            Some(p) => from <= p && is_pct_token_end(s, p),
            None => true,
        },
    decreases s.len() - from,
{
    if from < s.len() && !is_pct_token_end(s, from) {
        lemma_first_pct_end_from(s, from + 1);
    }
}

/// The first position in `text` that ends a `%`-token.
fn first_pct_end(text: &Vec<char>) -> (r: Option<usize>)
    ensures
        match r {
            Some(p) => Some(p as int) == first_pct_end_from(text@, 0),
            None => first_pct_end_from(text@, 0) is None,
        },
{
    let n = text.len();
    let mut i: usize = 0;
    while i < n
        invariant
            i <= n == text@.len(),
            first_pct_end_from(text@, 0) == first_pct_end_from(text@, i as int),
        decreases n - i,
    {
        if text[i] == '%' {
            let at_end = i + 1 == n;
            let next_space = if at_end {
                true
            } else {
                let c = text[i + 1];
                c == ' ' || c == '\t' || c == '\n' || c == '\r' || c == '\u{b}' || c == '\u{c}'
            };
            if next_space {
                return Some(i);
            }
        }
        i += 1;
    }
    None
}

/// Reads a percentage token as hundredths of a percent, clamped to 10000.
fn token_bp(tok: &Vec<char>) -> (r: u32)
    ensures
        r == spec_token_bp(tok@),
        r <= 10000,
{
    // Drop trailing `%` signs.
    proof {
        assert(tok@.subrange(0, tok@.len() as int) =~= tok@);
    }
    let mut m: usize = tok.len();
    while m > 0 && tok[m - 1] == '%'
        invariant
            m <= tok@.len(),
            strip_pct(tok@) == strip_pct(tok@.subrange(0, m as int)),
        decreases m,
    {
        proof {
            let s = tok@.subrange(0, m as int);
            assert(s.last() == tok@[m - 1]);
            assert(s.drop_last() =~= tok@.subrange(0, m - 1));
        }
        m -= 1;
    }
    proof {
        let s = tok@.subrange(0, m as int);
        if m > 0 {
            assert(s.last() == tok@[m - 1]);
        }
        assert(strip_pct(s) == s);
    }
    let num = sub_vec(tok, 0, m);
    let ghost numv = num@;
    let n = num.len();
    proof {
        lemma_first_char_in(numv, 0, n as int, '.');
    }
    match find_char_in(&num, 0, n, '.') {
        None => {
            proof {
                assert(numv.subrange(0, n as int) =~= numv);
            }
            if n == 0 {
                return 0;
            }
            if !all_digits_exec(&num, 0, n) {
                return 0;
            }
            proof {
                lemma_digits_val_nonneg(numv);
            }
            match parse_u64(&num, 0, n) {
                Some(v) => {
                    if v > 100 {
                        proof {
                            assert(digits_val(numv) * 100 >= 101 * 100) by (nonlinear_arith)
                                requires
                                    digits_val(numv) >= 101,
                            {}
                        }
                        10000
                    } else {
                        (v as u32) * 100
                    }
                },
                None => {
                    // The numeral does not even fit in a `u64`, so it is far
                    // beyond 100 percent.
                    proof {
                        assert(digits_val(numv) * 100 >= 101 * 100) by (nonlinear_arith)
                            requires
                                digits_val(numv) >= 101,
                        {}
                    }
                    10000
                },
            }
        },
        Some(d) => {
            if n <= 1 {
                return 0;
            }
            match find_char_in(&num, d + 1, n, '.') {
                Some(_) => {
                    return 0;
                },
                None => {},
            }
            if !all_digits_exec(&num, 0, d) {
                return 0;
            }
            if !all_digits_exec(&num, d + 1, n) {
                return 0;
            }
            let ghost ip = numv.subrange(0, d as int);
            let ghost fp = numv.subrange(d + 1, n as int);
            proof {
                lemma_digits_val_nonneg(ip);
                lemma_digits_val_nonneg(fp);
            }
            let frac: u32 = if d + 1 == n {
                0
            } else if d + 2 == n {
                proof {
                    assert(fp[0] == numv[d + 1]);
                    assert(is_digit(fp[0]));
                }
                ((num[d + 1] as u32) - 48) * 10
            } else {
                let ghost f2 = fp.subrange(0, 2);
                proof {
                    assert(f2 =~= numv.subrange(d + 1, d + 3));
                    assert(f2[0] == fp[0] && f2[1] == fp[1]);
                    assert(all_digits(f2));
                    let a = f2.drop_last();
                    assert(a.len() == 1 && a.drop_last().len() == 0);
                    assert(digits_val(a.drop_last()) == 0);
                    assert(a[0] == f2[0] && a.last() == f2[0]);
                    assert(digits_val(a) == digit_val(f2[0]));
                    assert(f2.last() == f2[1]);
                    assert(digits_val(f2) == digit_val(f2[0]) * 10 + digit_val(f2[1]));
                    assert(is_digit(f2[0]) && is_digit(f2[1]));
                    assert(digits_val(f2) <= 99);
                }
                match parse_u64(&num, d + 1, d + 3) {
                    Some(v) => v as u32,
                    None => 0,
                }
            };
            assert(frac <= 99);
            let ip_bp: u32 = if d == 0 {
                0
            } else {
                match parse_u64(&num, 0, d) {
                    Some(v) => {
                        if v > 100 {
                            proof {
                                assert(digits_val(ip) * 100 >= 101 * 100) by (nonlinear_arith)
                                    requires
                                        digits_val(ip) >= 101,
                                {}
                            }
                            return 10000;
                        }
                        (v as u32) * 100
                    },
                    None => {
                        proof {
                            assert(digits_val(ip) * 100 >= 101 * 100) by (nonlinear_arith)
                                requires
                                    digits_val(ip) >= 101,
                            {}
                        }
                        return 10000;
                    },
                }
            };
            let total = ip_bp + frac;
            if total > 10000 {
                10000
            } else {
                total
            }
        },
    }
}

/// The percentage a download progress line reports, in hundredths of a
/// percent: the value of the line's first whitespace-delimited token ending
/// in `%`, or 0 when there is none.
pub open spec fn spec_ytdlp_bp(line: Seq<char>) -> int {
    match first_pct_end_from(line, 0) {
        None => 0,
        Some(p) => spec_token_bp(line.subrange(token_start(line, p), p + 1)),
    }
}

/// The first whitespace-delimited token of the stretch between the first
/// occurrence of `pat` in `line` and the following occurrence (or the end of
/// the line), if the stretch holds one.
pub open spec fn spec_segment_token(line: Seq<char>, pat: Seq<char>) -> Option<Seq<char>> {
    match first_match_from(line, pat, 0) {
        None => None,
        Some(i) => {
            let start = i + pat.len();
            let stop = match first_match_from(line, pat, start) {
                Some(j) => j,
                None => line.len() as int,
            };
            let seg = line.subrange(start, stop);
            let a = skip_spaces(seg, 0);
            if a == seg.len() {
                None
            } else {
                Some(seg.subrange(a, token_end(seg, a)))
            }
        },
    }
}

/// The first whitespace-delimited token between the first and second
/// occurrences of `pat`, extracted from `line_str`.
fn segment_token(line_str: &str, line: &Vec<char>, pat: &str) -> (r: Option<String>)
    requires
        line@ == line_str@,
    ensures
        match r {
            Some(s) => spec_segment_token(line@, pat@) == Some(s@),
            None => spec_segment_token(line@, pat@) is None,
        },
{
    let p = chars_of(pat);
    let i = match find_from(line, &p, 0) {
        Some(i) => i,
        None => {
            return None;
        },
    };
    let n = line.len();
    proof {
        lemma_first_match_from(line@, p@, 0);
    }
    let start = i + p.len();
    let stop = match find_from(line, &p, start) {
        Some(j) => j,
        None => line.len(),
    };
    proof {
        lemma_first_match_from(line@, p@, start as int);
    }
    let seg = sub_vec(line, start, stop);
    let a = skip_spaces_exec(&seg, 0);
    if a == seg.len() {
        return None;
    }
    let b = token_end_exec(&seg, a);
    let s = line_str.substring_char(start + a, start + b).to_owned();
    proof {
        assert(seg@.subrange(a as int, b as int) =~= line@.subrange(
            start + a,
            start + b,
        ));
    }
    Some(s)
}

/// Parses a download-tool progress line.  A line mentioning `[download]`
/// yields an update whose percentage comes from the line's first `%`-token
/// (0 when there is none), whose speed is the first token after `at`, and
/// whose eta is the first token after `ETA`; any other line is ignored.
pub fn parse_ytdlp_progress(line: &str) -> (r: Option<ProgressInfo>)
    ensures
        match r {
            None => !contains_seq(line@, "[download]"@),
            Some(p) => {
                &&& contains_seq(line@, "[download]"@)
                &&& p.percentage == spec_ytdlp_bp(line@)
                &&& p.percentage <= 10000
                &&& (match p.speed {
                    Some(s) => spec_segment_token(line@, "at"@) == Some(s@),
                    None => spec_segment_token(line@, "at"@) is None,
                })
                &&& (match p.eta {
                    Some(s) => spec_segment_token(line@, "ETA"@) == Some(s@),
                    None => spec_segment_token(line@, "ETA"@) is None,
                })
            },
        },
{
    let chars = chars_of(line);
    if !contains_lit(&chars, "[download]") {
        return None;
    }
    let percentage = match first_pct_end(&chars) {
        None => 0u32,
        Some(pend) => {
            proof {
                lemma_first_pct_end_from(chars@, 0);
            }
            let ts = token_start_exec(&chars, pend);
            let tok = sub_vec(&chars, ts, pend + 1);
            token_bp(&tok)
        },
    };
    let speed = segment_token(line, &chars, "at");
    let eta = segment_token(line, &chars, "ETA");
    Some(ProgressInfo { percentage, speed, eta })
}

/// `v` where it fits in a `u64`, and 0 otherwise: the value of a numeral
/// whose reading failed counts as 0.
pub open spec fn cap_or_zero(v: int) -> int {
    if v <= u64::MAX {
        v
    } else {
        0
    }
}

/// `v` clamped into `u64`.
pub open spec fn sat_u64(v: int) -> u64 {
    if v <= u64::MAX {
        v as u64
    } else {
        u64::MAX
    }
}

/// The total duration, in milliseconds, that a conversion-tool banner line
/// announces: after the first `Duration: `, hours, minutes and seconds
/// separated by colons, then a dot and a fractional part read as
/// centiseconds.  `None` when the line has no such shape.
pub open spec fn spec_duration_of(line: Seq<char>) -> Option<u64> {
    match first_match_from(line, "Duration: "@, 0) {
        None => None,
        Some(i) => {
            let q = i + "Duration: "@.len();
            let he = digits_end(line, q);
            if he == q || he >= line.len() || line[he] != ':' {
                None
            } else {
                let me = digits_end(line, he + 1);
                if me == he + 1 || me >= line.len() || line[me] != ':' {
                    None
                } else {
                    let se = digits_end(line, me + 1);
                    if se == me + 1 || se >= line.len() || line[se] != '.' {
                        None
                    } else {
                        let fe = digits_end(line, se + 1);
                        if fe == se + 1 {
                            None
                        } else {
                            let h = cap_or_zero(digits_val(line.subrange(q, he)));
                            let m = cap_or_zero(digits_val(line.subrange(he + 1, me)));
                            let s = cap_or_zero(digits_val(line.subrange(me + 1, se)));
                            let f = cap_or_zero(digits_val(line.subrange(se + 1, fe)));
                            Some(sat_u64((h * 3600 + m * 60 + s) * 1000 + f * 10))
                        }
                    }
                }
            }
        },
    }
}

/// Reads one numeral component of a duration: its value, or 0 when it does
/// not fit in a `u64`.
fn duration_component(line: &Vec<char>, from: usize, to: usize) -> (r: u64)
    requires
        from < to <= line@.len(),
        all_digits(line@.subrange(from as int, to as int)),
    ensures
        r == cap_or_zero(digits_val(line@.subrange(from as int, to as int))),
{
    proof {
        lemma_digits_val_nonneg(line@.subrange(from as int, to as int));
    }
    match parse_u64(line, from, to) {
        Some(v) => v,
        None => 0,
    }
}

/// The duration a line announces, per `spec_duration_of`.
fn parse_duration(line: &Vec<char>) -> (r: Option<u64>)
    ensures
        match r {
            Some(v) => spec_duration_of(line@) == Some(v),
            None => spec_duration_of(line@) is None,
        },
{
    proof {
        reveal_strlit("Duration: ");
    }
    let pat = chars_of("Duration: ");
    let i = match find_from(line, &pat, 0) {
        Some(i) => i,
        None => {
            return None;
        },
    };
    let n = line.len();
    proof {
        lemma_first_match_from(line@, pat@, 0);
    }
    let q = i + 10;
    let he = digits_end_exec(line, q);
    if he == q || he >= n {
        return None;
    }
    if line[he] != ':' {
        return None;
    }
    let me = digits_end_exec(line, he + 1);
    if me == he + 1 || me >= n {
        return None;
    }
    if line[me] != ':' {
        return None;
    }
    let se = digits_end_exec(line, me + 1);
    if se == me + 1 || se >= n {
        return None;
    }
    if line[se] != '.' {
        return None;
    }
    let fe = digits_end_exec(line, se + 1);
    if fe == se + 1 {
        return None;
    }
    proof {
        lemma_digits_end(line@, q as int);
        lemma_digits_end(line@, he + 1);
        lemma_digits_end(line@, me + 1);
        lemma_digits_end(line@, se + 1);
    }
    let h = duration_component(line, q, he);
    let m = duration_component(line, he + 1, me);
    let s = duration_component(line, me + 1, se);
    let f = duration_component(line, se + 1, fe);
    let total: u128 = ((h as u128) * 3600 + (m as u128) * 60 + (s as u128)) * 1000 + (f as u128)
        * 10;
    let capped: u64 = if total > u64::MAX as u128 {
        u64::MAX
    } else {
        total as u64
    };
    Some(capped)
}

/// The position a progress-report line declares: for a line of the shape
/// `out_time_ms=<numeral>` (whitespace around the numeral allowed), the
/// numeral's value, or 0 when what follows the `=` is not a numeral that
/// fits in a `u64`.  `None` for every other line.
pub open spec fn spec_out_time(line: Seq<char>) -> Option<u64> {
    if !starts_with(line, "out_time_ms="@) {
        None
    } else {
        let from = "out_time_ms="@.len() as int;
        let l = skip_spaces(line, from);
        let rr = from + rtrim_end(line.subrange(from, line.len() as int));
        if l >= rr {
            Some(0)
        } else {
            let s = line.subrange(l, rr);
            if all_digits(s) && digits_val(s) <= u64::MAX {
                Some(digits_val(s) as u64)
            } else {
                Some(0)
            }
        }
    }
}

/// The declared position of a progress-report line, per `spec_out_time`.
fn parse_out_time(line: &Vec<char>) -> (r: Option<u64>)
    ensures
        match r {
            Some(v) => spec_out_time(line@) == Some(v),
            None => spec_out_time(line@) is None,
        },
{
    proof {
        reveal_strlit("out_time_ms=");
    }
    if !starts_with_lit(line, "out_time_ms=") {
        return None;
    }
    let n = line.len();
    let from: usize = 12;
    let l = skip_spaces_exec(line, from);
    let rr = rtrim_exec(line, from, n);
    if l >= rr {
        return Some(0);
    }
    if !all_digits_exec(line, l, rr) {
        return Some(0);
    }
    proof {
        lemma_digits_val_nonneg(line@.subrange(l as int, rr as int));
    }
    match parse_u64(line, l, rr) {
        Some(v) => Some(v),
        None => Some(0),
    }
}

/// `current` out of `total` in hundredths of a percent, clamped to 10000.
pub open spec fn spec_ratio_bp(current: u64, total: u64) -> int
    recommends
        total > 0,
{
    let raw = current * 10000 / (total as int);
    if raw <= 10000 {
        raw
    } else {
        10000
    }
}

/// `current` out of `total` in hundredths of a percent, clamped to 10000.
fn ratio_bp(current: u64, total: u64) -> (r: u32)
    requires
        total > 0,
    ensures
        r == spec_ratio_bp(current, total),
        r <= 10000,
{
    let raw: u128 = (current as u128) * 10000 / (total as u128);
    if raw > 10000 {
        10000
    } else {
        raw as u32
    }
}

/// Tracks one running conversion process: remembers the total duration the
/// tool announced, so a later position report can be turned into a
/// percentage.
#[derive(Debug, Clone)]
pub struct FFmpegProgress {
    pub duration_ms: Option<u64>,
    pub current_ms: u64,
}

impl FFmpegProgress {
    /// A tracker that has seen no output yet.
    pub fn new() -> (r: Self)
        ensures
            r.duration_ms is None,
            r.current_ms == 0,
    {
        FFmpegProgress { duration_ms: None, current_ms: 0 }
    }

    /// Consumes one line of tool output.  A duration banner records the
    /// total; a position report records the position and, once a positive
    /// total is known, yields the completed fraction in hundredths of a
    /// percent.  Every other line changes nothing and yields nothing.
    pub fn parse_line(&mut self, line: &str) -> (r: Option<u32>)
        ensures
            final(self).duration_ms == (match spec_duration_of(line@) {
                Some(d) => Some(d),
                None => old(self).duration_ms,
            }),
            final(self).current_ms == (match spec_out_time(line@) {
                Some(c) => c,
                None => old(self).current_ms,
            }),
            r == (match spec_out_time(line@) {
                Some(c) => match final(self).duration_ms {
                    Some(t) => if t > 0 {
                        Some(spec_ratio_bp(c, t) as u32)
                    } else {
                        None::<u32>
                    },
                    None => None::<u32>,
                },
                None => None::<u32>,
            }),
    {
        let chars = chars_of(line);
        match parse_duration(&chars) {
            Some(d) => {
                self.duration_ms = Some(d);
            },
            None => {},
        }
        match parse_out_time(&chars) {
            Some(c) => {
                self.current_ms = c;
                match self.duration_ms {
                    Some(t) => {
                        if t > 0 {
                            Some(ratio_bp(c, t))
                        } else {
                            None
                        }
                    },
                    None => None,
                }
            },
            None => None,
        }
    }
}

/// Parses a position report without any remembered total: the completed
/// fraction of an assumed ten-minute run, in hundredths of a percent, for a
/// positive declared position; `None` otherwise.
pub fn parse_ffmpeg_progress(line: &str) -> (r: Option<u32>)
    ensures
        r == (match spec_out_time(line@) {
            Some(c) => if c > 0 {
                Some(spec_ratio_bp(c, 600000) as u32)
            } else {
                None::<u32>
            },
            None => None::<u32>,
        }),
{
    let chars = chars_of(line);
    match parse_out_time(&chars) {
        Some(c) => {
            if c > 0 {
                Some(ratio_bp(c, 600000))
            } else {
                None
            }
        },
        None => None,
    }
}

/// The stretch of `line` between the first occurrence of `pat` and the
/// following occurrence (or the end of the line), if `pat` occurs at all.
pub open spec fn spec_split_second(line: Seq<char>, pat: Seq<char>) -> Option<Seq<char>> {
    match first_match_from(line, pat, 0) {
        None => None,
        Some(i) => {
            let start = i + pat.len();
            let stop = match first_match_from(line, pat, start) {
                Some(j) => j,
                None => line.len() as int,
            };
            Some(line.subrange(start, stop))
        },
    }
}

/// The bounds of the stretch between the first and second occurrences of
/// `pat` in `text`.
fn split_second(text: &Vec<char>, pat: &str) -> (r: Option<(usize, usize)>)
    ensures
        match r {
            Some(p) => p.0 <= p.1 <= text@.len() && spec_split_second(text@, pat@) == Some(
                text@.subrange(p.0 as int, p.1 as int),
            ),
            None => spec_split_second(text@, pat@) is None,
        },
{
    let p = chars_of(pat);
    let i = match find_from(text, &p, 0) {
        Some(i) => i,
        None => {
            return None;
        },
    };
    let n = text.len();
    proof {
        lemma_first_match_from(text@, p@, 0);
    }
    let start = i + p.len();
    let stop = match find_from(text, &p, start) {
        Some(j) => j,
        None => n,
    };
    proof {
        lemma_first_match_from(text@, p@, start as int);
    }
    Some((start, stop))
}

/// `s` with leading and trailing whitespace dropped.
pub open spec fn spec_trim(s: Seq<char>) -> Seq<char> {
    let l = skip_spaces(s, 0);
    let r = rtrim_end(s);
    if l < r {
        s.subrange(l, r)
    } else {
        Seq::empty()
    }
}

/// `s` with leading and trailing `"` characters dropped.
pub open spec fn spec_trim_quotes(s: Seq<char>) -> Seq<char> {
    let l = skip_char_from(s, 0, '"');
    let r = rstrip_char(s, '"');
    if l < r {
        s.subrange(l, r)
    } else {
        Seq::empty()
    }
}

/// The output file a tool line announces: for a line carrying a destination
/// or merge marker, the stretch after the announcing phrase, trimmed of
/// whitespace and quotes.  `None` for every other line.
pub open spec fn spec_destination(line: Seq<char>) -> Option<Seq<char>> {
    if contains_seq(line, "[download] Destination:"@) || contains_seq(line, "[Merger]"@)
        || contains_seq(line, "[ExtractAudio]"@) {
        let seg = match spec_split_second(line, "Destination:"@) {
            Some(s) => Some(s),
            None => match spec_split_second(line, "Merging formats into"@) {
                Some(s) => Some(s),
                None => spec_split_second(line, "to:"@),
            },
        };
        match seg {
            Some(s) => Some(spec_trim_quotes(spec_trim(s))),
            None => None,
        }
    } else {
        None
    }
}

/// Recognises a "final destination" announcement embedded in a tool output
/// line and surfaces the announced path.
pub fn parse_destination(line: &str) -> (r: Option<String>)
    ensures
        match r {
            Some(s) => spec_destination(line@) == Some(s@),
            None => spec_destination(line@) is None,
        },
{
    let chars = chars_of(line);
    if !(contains_lit(&chars, "[download] Destination:") || contains_lit(&chars, "[Merger]")
        || contains_lit(&chars, "[ExtractAudio]")) {
        return None;
    }
    let bounds = match split_second(&chars, "Destination:") {
        Some(p) => Some(p),
        None => match split_second(&chars, "Merging formats into") {
            Some(p) => Some(p),
            None => split_second(&chars, "to:"),
        },
    };
    let (start, stop) = match bounds {
        Some(p) => p,
        None => {
            return None;
        },
    };
    let seg = sub_vec(&chars, start, stop);
    proof {
        assert(seg@.subrange(0, seg@.len() as int) =~= seg@);
    }
    let l1 = skip_spaces_exec(&seg, 0);
    let r1 = rtrim_exec(&seg, 0, seg.len());
    if l1 >= r1 {
        proof {
            assert(spec_trim(seg@) == Seq::<char>::empty());
        }
        return Some(String::new());
    }
    let trimmed = sub_vec(&seg, l1, r1);
    proof {
        assert(trimmed@ == spec_trim(seg@));
    }
    let l2 = skip_char_exec(&trimmed, 0, '"');
    let r2 = rstrip_char_exec(&trimmed, '"');
    if l2 >= r2 {
        proof {
            assert(spec_trim_quotes(trimmed@) == Seq::<char>::empty());
        }
        return Some(String::new());
    }
    let s = line.substring_char(start + l1 + l2, start + l1 + r2).to_owned();
    proof {
        assert(trimmed@.subrange(l2 as int, r2 as int) =~= line@.subrange(
            start + l1 + l2,
            start + l1 + r2,
        ));
    }
    Some(s)
}

} // verus!
