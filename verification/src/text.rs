//! Verified text utilities: substring search (case-sensitive and with ASCII
//! case folding), whitespace tokenisation and decimal parsing, all specified
//! over sequences of characters.

use vstd::prelude::*;

verus! {

/// `c` with an ASCII upper-case letter folded to its lower-case equivalent;
/// every other character is unchanged.
pub open spec fn lower_char(c: char) -> char {
    if 65 <= c as u32 && c as u32 <= 90 {
        ((c as u32) + 32) as char
    } else {
        c
    }
}

/// `s` with every ASCII upper-case letter folded to lower case.
pub open spec fn lower_seq(s: Seq<char>) -> Seq<char> {
    Seq::new(s.len(), |i: int| lower_char(s[i]))
}

/// Character equality up to ASCII case folding.
pub open spec fn eq_ci(a: char, b: char) -> bool {
    lower_char(a) == lower_char(b)
}

/// `pat` occurs in `text` starting exactly at index `i`.
pub open spec fn matches_at(text: Seq<char>, pat: Seq<char>, i: int) -> bool {
    &&& 0 <= i
    &&& i + pat.len() <= text.len()
    &&& forall|j: int| 0 <= j < pat.len() ==> text[i + j] == pat[j]
}

/// `pat` occurs in `text` at index `i`, up to ASCII case folding.
pub open spec fn matches_at_ci(text: Seq<char>, pat: Seq<char>, i: int) -> bool {
    &&& 0 <= i
    &&& i + pat.len() <= text.len()
    &&& forall|j: int| 0 <= j < pat.len() ==> eq_ci(text[i + j], pat[j])
}

/// `pat` occurs somewhere in `text`.
pub open spec fn contains_seq(text: Seq<char>, pat: Seq<char>) -> bool {
    exists|i: int| matches_at(text, pat, i)
}

/// `pat` occurs somewhere in `text`, up to ASCII case folding.
pub open spec fn contains_seq_ci(text: Seq<char>, pat: Seq<char>) -> bool {
    exists|i: int| matches_at_ci(text, pat, i)
}

/// `pat` is a prefix of `text`.
pub open spec fn starts_with(text: Seq<char>, pat: Seq<char>) -> bool {
    matches_at(text, pat, 0)
}

/// The characters of `s` as a vector, in order.
pub fn chars_of(s: &str) -> (v: Vec<char>)
    ensures
        v@ == s@,
{
    let n = s.unicode_len();
    let mut v: Vec<char> = Vec::new();
    let mut i: usize = 0;
    while i < n
        invariant
            i <= n,
            n == s@.len(),
            v@ == s@.subrange(0, i as int),
        decreases n - i,
    {
        v.push(s.get_char(i));
        i += 1;
    }
    proof {
        assert(v@ =~= s@);
    }
    v
}

/// Whether `pat` occurs in `text` starting at index `i`.
pub fn match_at(text: &Vec<char>, pat: &Vec<char>, i: usize) -> (r: bool)
    requires
        i + pat@.len() <= text@.len(),
    ensures
        r == matches_at(text@, pat@, i as int),
{
    let n = text.len();
    let mut j: usize = 0;
    while j < pat.len()
        invariant
            j <= pat@.len(),
            i + pat@.len() <= n == text@.len(),
            forall|k: int| 0 <= k < j ==> text@[i + k] == pat@[k],
        decreases pat@.len() - j,
    {
        if text[i + j] != pat[j] {
            return false;
        }
        j += 1;
    }
    true
}

/// The code point of `c` after ASCII case folding.
fn lower_code(c: char) -> (r: u32)
    ensures
        r == lower_char(c) as u32,
{
    let u = c as u32;
    if 65 <= u && u <= 90 {
        u + 32
    } else {
        u
    }
}

/// Whether `pat` occurs in `text` at index `i`, up to ASCII case folding.
pub fn match_at_ci(text: &Vec<char>, pat: &Vec<char>, i: usize) -> (r: bool)
    requires
        i + pat@.len() <= text@.len(),
    ensures
        r == matches_at_ci(text@, pat@, i as int),
{
    let n = text.len();
    let mut j: usize = 0;
    while j < pat.len()
        invariant
            j <= pat@.len(),
            i + pat@.len() <= n == text@.len(),
            forall|k: int| 0 <= k < j ==> eq_ci(text@[i + k], pat@[k]),
        decreases pat@.len() - j,
    {
        if lower_code(text[i + j]) != lower_code(pat[j]) {
            return false;
        }
        j += 1;
    }
    true
}

/// Whether `pat` occurs somewhere in `text`.
pub fn contains_chars(text: &Vec<char>, pat: &Vec<char>) -> (r: bool)
    ensures
        r == contains_seq(text@, pat@),
{
    if pat.len() == 0 {
        assert(matches_at(text@, pat@, 0));
        return true;
    }
    if pat.len() > text.len() {
        return false;
    }
    let end = text.len() - pat.len();
    let mut i: usize = 0;
    while i <= end
        invariant
            1 <= pat@.len() <= text@.len() <= usize::MAX,
            end == text@.len() - pat@.len(),
            i <= end + 1,
            forall|k: int| 0 <= k < i ==> !matches_at(text@, pat@, k),
        decreases end + 1 - i,
    {
        if match_at(text, pat, i) {
            return true;
        }
        i += 1;
    }
    false
}

/// Whether `pat` occurs somewhere in `text`, up to ASCII case folding.
pub fn contains_chars_ci(text: &Vec<char>, pat: &Vec<char>) -> (r: bool)
    ensures
        r == contains_seq_ci(text@, pat@),
{
    if pat.len() == 0 {
        assert(matches_at_ci(text@, pat@, 0));
        return true;
    }
    if pat.len() > text.len() {
        return false;
    }
    let end = text.len() - pat.len();
    let mut i: usize = 0;
    while i <= end
        invariant
            1 <= pat@.len() <= text@.len() <= usize::MAX,
            end == text@.len() - pat@.len(),
            i <= end + 1,
            forall|k: int| 0 <= k < i ==> !matches_at_ci(text@, pat@, k),
        decreases end + 1 - i,
    {
        if match_at_ci(text, pat, i) {
            return true;
        }
        i += 1;
    }
    false
}

/// Whether `pat` occurs somewhere in `text`.
pub fn contains_lit(text: &Vec<char>, pat: &str) -> (r: bool)
    ensures
        r == contains_seq(text@, pat@),
{
    let p = chars_of(pat);
    contains_chars(text, &p)
}

/// Whether `pat` occurs somewhere in `text`, up to ASCII case folding.
pub fn contains_lit_ci(text: &Vec<char>, pat: &str) -> (r: bool)
    ensures
        r == contains_seq_ci(text@, pat@),
{
    let p = chars_of(pat);
    contains_chars_ci(text, &p)
}

/// Whether `pat` is a prefix of `text`.
pub fn starts_with_lit(text: &Vec<char>, pat: &str) -> (r: bool)
    ensures
        r == starts_with(text@, pat@),
{
    let p = chars_of(pat);
    if p.len() > text.len() {
        return false;
    }
    match_at(text, &p, 0)
}

/// The first index at or after `from` where `pat` occurs in `text`, if any.
pub open spec fn first_match_from(text: Seq<char>, pat: Seq<char>, from: int) -> Option<int>
    decreases text.len() - from
        when 0 <= from <= text.len()
{
    if from < 0 || from + pat.len() > text.len() {
        None
    } else if matches_at(text, pat, from) {
        Some(from)
    } else {
        first_match_from(text, pat, from + 1)
    }
}

/// What `first_match_from` returns: the first occurrence at or after `from`,
/// or `None` when there is none.
pub proof fn lemma_first_match_from(text: Seq<char>, pat: Seq<char>, from: int)
    requires
        0 <= from <= text.len(),
    ensures
        match first_match_from(text, pat, from) {
            Some(i) => from <= i && matches_at(text, pat, i) && forall|k: int|
                from <= k < i ==> !matches_at(text, pat, k),
            None => forall|k: int| from <= k ==> !matches_at(text, pat, k),
        },
    decreases text.len() - from,
{
    if from + pat.len() > text.len() {
        assert forall|k: int| from <= k implies !matches_at(text, pat, k) by {}
    } else if matches_at(text, pat, from) {
    } else {
        lemma_first_match_from(text, pat, from + 1);
    }
}

/// The first index at or after `from` where `pat` occurs in `text`.
pub fn find_from(text: &Vec<char>, pat: &Vec<char>, from: usize) -> (r: Option<usize>)
    requires
        from <= text@.len(),
    ensures
        match r {
            Some(i) => Some(i as int) == first_match_from(text@, pat@, from as int),
            None => first_match_from(text@, pat@, from as int) is None,
        },
{
    if pat.len() == 0 {
        return Some(from);
    }
    if pat.len() > text.len() || from > text.len() - pat.len() {
        return None;
    }
    let end = text.len() - pat.len();
    let mut i: usize = from;
    while i <= end
        invariant
            from <= i <= end + 1,
            1 <= pat@.len() <= text@.len() <= usize::MAX,
            end == text@.len() - pat@.len(),
            first_match_from(text@, pat@, from as int) == first_match_from(
                text@,
                pat@,
                i as int,
            ),
        decreases end + 1 - i,
    {
        if match_at(text, pat, i) {
            return Some(i);
        }
        i += 1;
    }
    None
}

/// The whitespace this library recognises: the ASCII space, tab,
/// line feed, carriage return, vertical tab and form feed characters.
pub open spec fn is_space(c: char) -> bool {
    c == ' ' || c == '\t' || c == '\n' || c == '\r' || c == '\u{b}' || c == '\u{c}'
}

/// The first index at or after `from` holding a non-whitespace character, or
/// the length of `s`.
pub open spec fn skip_spaces(s: Seq<char>, from: int) -> int
    decreases s.len() - from
        when 0 <= from <= s.len()
{
    if from >= s.len() {
        s.len() as int
    } else if is_space(s[from]) {
        skip_spaces(s, from + 1)
    } else {
        from
    }
}

/// The first index at or after `from` holding a whitespace character, or the
/// length of `s`.
pub open spec fn token_end(s: Seq<char>, from: int) -> int
    decreases s.len() - from
        when 0 <= from <= s.len()
{
    if from >= s.len() {
        s.len() as int
    } else if is_space(s[from]) {
        from
    } else {
        token_end(s, from + 1)
    }
}



/// The first index at or after `from` in `text` holding a non-whitespace
/// character, or the length of `text`.
pub fn skip_spaces_exec(text: &Vec<char>, from: usize) -> (r: usize)
    requires
        from <= text@.len(),
    ensures
        r == skip_spaces(text@, from as int),
        from <= r <= text@.len(),
{
    let mut i: usize = from;
    while i < text.len()
        invariant
            from <= i <= text@.len(),
            skip_spaces(text@, from as int) == skip_spaces(text@, i as int),
        decreases text@.len() - i,
    {
        let c = text[i];
        if !(c == ' ' || c == '\t' || c == '\n' || c == '\r' || c == '\u{b}' || c == '\u{c}') {
            return i;
        }
        i += 1;
    }
    i
}

/// The first index at or after `from` in `text` holding a whitespace
/// character, or the length of `text`.
pub fn token_end_exec(text: &Vec<char>, from: usize) -> (r: usize)
    requires
        from <= text@.len(),
    ensures
        r == token_end(text@, from as int),
        from <= r <= text@.len(),
{
    let mut i: usize = from;
    while i < text.len()
        invariant
            from <= i <= text@.len(),
            token_end(text@, from as int) == token_end(text@, i as int),
        decreases text@.len() - i,
    {
        let c = text[i];
        if c == ' ' || c == '\t' || c == '\n' || c == '\r' || c == '\u{b}' || c == '\u{c}' {
            return i;
        }
        i += 1;
    }
    i
}

/// The characters `text[a..b]` as a vector of their own.
pub fn sub_vec(text: &Vec<char>, a: usize, b: usize) -> (r: Vec<char>)
    requires
        a <= b <= text@.len(),
    ensures
        r@ == text@.subrange(a as int, b as int),
{
    let mut v: Vec<char> = Vec::new();
    let mut i: usize = a;
    while i < b
        invariant
            a <= i <= b <= text@.len(),
            v@ == text@.subrange(a as int, i as int),
        decreases b - i,
    {
        v.push(text[i]);
        proof {
            assert(v@ =~= text@.subrange(a as int, i + 1));
        }
        i += 1;
    }
    v
}

/// Whether `c` is an ASCII decimal digit.
pub open spec fn is_digit(c: char) -> bool {
    48 <= c as u32 && c as u32 <= 57
}

/// The numeric value of the digit `c`.
pub open spec fn digit_val(c: char) -> int {
    c as u32 - 48
}

/// Whether every character of `s` is an ASCII decimal digit.
pub open spec fn all_digits(s: Seq<char>) -> bool {
    forall|i: int| 0 <= i < s.len() ==> is_digit(s[i])
}

/// The value of `s` read as a decimal numeral.
pub open spec fn digits_val(s: Seq<char>) -> int
    decreases s.len(),
{
    if s.len() == 0 {
        0
    } else {
        digits_val(s.drop_last()) * 10 + digit_val(s.last())
    }
}

/// A decimal numeral of digits has a non-negative value.
pub proof fn lemma_digits_val_nonneg(s: Seq<char>)
    requires
        all_digits(s),
    ensures
        digits_val(s) >= 0,
    decreases s.len(),
{
    if s.len() > 0 {
        lemma_digits_val_nonneg(s.drop_last());
    }
}

/// Extending a numeral on the right never decreases its value.
pub proof fn lemma_digits_val_prefix(s: Seq<char>, k: int)
    requires
        all_digits(s),
        0 <= k <= s.len(),
    ensures
        digits_val(s.subrange(0, k)) <= digits_val(s),
    decreases s.len() - k,
{
    if k < s.len() {
        lemma_digits_val_prefix(s, k + 1);
        let p = s.subrange(0, k);
        let q = s.subrange(0, k + 1);
        assert(q.drop_last() =~= p);
        lemma_digits_val_nonneg(p);
    } else {
        assert(s.subrange(0, k) =~= s);
    }
}

/// Whether `c` is an ASCII decimal digit.
pub fn is_digit_exec(c: char) -> (r: bool)
    ensures
        r == is_digit(c),
{
    let u = c as u32;
    48 <= u && u <= 57
}

/// Reads `text[from..to]` as a decimal numeral.  Returns `None` when the
/// range is empty, holds a non-digit, or its value does not fit in a `u64`.
pub fn parse_u64(text: &Vec<char>, from: usize, to: usize) -> (r: Option<u64>)
    requires
        from <= to <= text@.len(),
    ensures
        ({
            let s = text@.subrange(from as int, to as int);
            match r {
                Some(v) => from < to && all_digits(s) && v == digits_val(s),
                None => from == to || !all_digits(s) || digits_val(s) > u64::MAX,
            }
        }),
{
    if from == to {
        return None;
    }
    let mut acc: u64 = 0;
    let mut i: usize = from;
    while i < to
        invariant
            from <= i <= to <= text@.len(),
            all_digits(text@.subrange(from as int, i as int)),
            acc == digits_val(text@.subrange(from as int, i as int)),
        decreases to - i,
    {
        let c = text[i];
        if !is_digit_exec(c) {
            assert(!all_digits(text@.subrange(from as int, to as int))) by {
                let s = text@.subrange(from as int, to as int);
                assert(s[i - from] == text@[i as int]);
            }
            return None;
        }
        let d: u32 = (c as u32) - 48;
        proof {
            let p = text@.subrange(from as int, i as int);
            let q = text@.subrange(from as int, i + 1);
            assert(q.drop_last() =~= p);
        }
        if acc > (u64::MAX - (d as u64)) / 10 {
            // The numeral read so far already exceeds `u64`, so the whole
            // range does too.
            proof {
                let q = text@.subrange(from as int, i + 1);
                let s = text@.subrange(from as int, to as int);
                assert(acc * 10 + d > u64::MAX) by (nonlinear_arith)
                    requires
                        acc > (u64::MAX - (d as u64)) / 10,
                        d <= 9,
                {}
                assert(all_digits(q) && digits_val(q) > u64::MAX);
                if all_digits(s) {
                    assert(q =~= s.subrange(0, i + 1 - from).subrange(0, i + 1 - from));
                    assert(q =~= s.subrange(0, i + 1 - from));
                    lemma_digits_val_prefix(s, i + 1 - from);
                }
            }
            return None;
        }
        proof {
            assert(acc * 10 + d <= u64::MAX) by (nonlinear_arith)
                requires
                    acc <= (u64::MAX - (d as u64)) / 10,
                    d <= 9,
            {}
        }
        acc = acc * 10 + (d as u64);
        i += 1;
    }
    Some(acc)
}

/// The first index at or after `from` holding a non-digit character, or the
/// length of `s`: the end of the digit run starting at `from`.
pub open spec fn digits_end(s: Seq<char>, from: int) -> int
    decreases s.len() - from
        when 0 <= from <= s.len()
{
    if from >= s.len() {
        s.len() as int
    } else if is_digit(s[from]) {
        digits_end(s, from + 1)
    } else {
        from
    }
}

/// Bounds on `digits_end`, and that the run it delimits is all digits.
pub proof fn lemma_digits_end(s: Seq<char>, from: int)
    requires
        0 <= from <= s.len(),
    ensures
        from <= digits_end(s, from) <= s.len(),
        all_digits(s.subrange(from, digits_end(s, from))),
    decreases s.len() - from,
{
    if from < s.len() && is_digit(s[from]) {
        lemma_digits_end(s, from + 1);
        let e = digits_end(s, from);
        let p = s.subrange(from + 1, e);
        let q = s.subrange(from, e);
        assert forall|i: int| 0 <= i < q.len() implies is_digit(q[i]) by {
            if i > 0 {
                assert(q[i] == p[i - 1]);
            }
        }
    }
}

/// The first index at or after `from` in `text` holding a non-digit
/// character, or the length of `text`.
pub fn digits_end_exec(text: &Vec<char>, from: usize) -> (r: usize)
    requires
        from <= text@.len(),
    ensures
        r == digits_end(text@, from as int),
        from <= r <= text@.len(),
{
    let mut i: usize = from;
    while i < text.len()
        invariant
            from <= i <= text@.len(),
            digits_end(text@, from as int) == digits_end(text@, i as int),
        decreases text@.len() - i,
    {
        if !is_digit_exec(text[i]) {
            return i;
        }
        i += 1;
    }
    i
}

/// The length of `s` once trailing whitespace is dropped.
pub open spec fn rtrim_end(s: Seq<char>) -> int
    decreases s.len(),
{
    if s.len() > 0 && is_space(s.last()) {
        rtrim_end(s.drop_last())
    } else {
        s.len() as int
    }
}


/// The length of `text[from..to]` once trailing whitespace is dropped, as an
/// index into `text`.
pub fn rtrim_exec(text: &Vec<char>, from: usize, to: usize) -> (r: usize)
    requires
        from <= to <= text@.len(),
    ensures
        r - from == rtrim_end(text@.subrange(from as int, to as int)),
        from <= r <= to,
{
    let mut i: usize = to;
    while i > from
        invariant
            from <= i <= to <= text@.len(),
            rtrim_end(text@.subrange(from as int, to as int)) == rtrim_end(
                text@.subrange(from as int, i as int),
            ),
        decreases i,
    {
        let c = text[i - 1];
        if !(c == ' ' || c == '\t' || c == '\n' || c == '\r' || c == '\u{b}' || c == '\u{c}') {
            proof {
                let s = text@.subrange(from as int, i as int);
                assert(s.last() == text@[i - 1]);
            }
            return i;
        }
        proof {
            let s = text@.subrange(from as int, i as int);
            assert(s.last() == text@[i - 1]);
            assert(s.drop_last() =~= text@.subrange(from as int, i - 1));
        }
        i -= 1;
    }
    proof {
        assert(text@.subrange(from as int, from as int).len() == 0);
    }
    i
}

/// The start of the whitespace-delimited token that the character at `p`
/// belongs to: the nearest index at or before `p` that begins the run.
pub open spec fn token_start(s: Seq<char>, p: int) -> int
    decreases p
        when 0 <= p <= s.len()
{
    if p <= 0 {
        0
    } else if is_space(s[p - 1]) {
        p
    } else {
        token_start(s, p - 1)
    }
}


/// The start of the whitespace-delimited token containing position `p`.
pub fn token_start_exec(text: &Vec<char>, p: usize) -> (r: usize)
    requires
        p <= text@.len(),
    ensures
        r == token_start(text@, p as int),
        r <= p,
{
    let mut i: usize = p;
    while i > 0
        invariant
            i <= p <= text@.len(),
            token_start(text@, p as int) == token_start(text@, i as int),
        decreases i,
    {
        let c = text[i - 1];
        if c == ' ' || c == '\t' || c == '\n' || c == '\r' || c == '\u{b}' || c == '\u{c}' {
            return i;
        }
        i -= 1;
    }
    i
}

/// The first index in `[from, to)` holding exactly the character `c`, if
/// any.
pub open spec fn first_char_in(s: Seq<char>, from: int, to: int, c: char) -> Option<int>
    decreases to - from
        when 0 <= from && to <= s.len()
{
    if from >= to {
        None
    } else if s[from] == c {
        Some(from)
    } else {
        first_char_in(s, from + 1, to, c)
    }
}

/// What `first_char_in` returns: the first position of `c` in the range, or
/// `None` when `c` does not occur there.
pub proof fn lemma_first_char_in(s: Seq<char>, from: int, to: int, c: char)
    requires
        0 <= from,
        to <= s.len(),
    ensures
        match first_char_in(s, from, to, c) {
            Some(i) => from <= i < to && s[i] == c && forall|k: int|
                from <= k < i ==> s[k] != c,
            None => forall|k: int| from <= k < to ==> s[k] != c,
        },
    decreases to - from,
{
    if from < to && s[from] != c {
        lemma_first_char_in(s, from + 1, to, c);
    }
}

/// The first index in `[from, to)` of `text` holding the character `c`.
pub fn find_char_in(text: &Vec<char>, from: usize, to: usize, c: char) -> (r: Option<usize>)
    requires
        from <= to <= text@.len(),
    ensures
        match r {
            Some(i) => Some(i as int) == first_char_in(text@, from as int, to as int, c),
            None => first_char_in(text@, from as int, to as int, c) is None,
        },
{
    let mut i: usize = from;
    while i < to
        invariant
            from <= i <= to <= text@.len(),
            first_char_in(text@, from as int, to as int, c) == first_char_in(
                text@,
                i as int,
                to as int,
                c,
            ),
        decreases to - i,
    {
        if text[i] == c {
            return Some(i);
        }
        i += 1;
    }
    None
}

/// Whether every character of `text[from..to]` is an ASCII decimal digit.
pub fn all_digits_exec(text: &Vec<char>, from: usize, to: usize) -> (r: bool)
    requires
        from <= to <= text@.len(),
    ensures
        r == all_digits(text@.subrange(from as int, to as int)),
{
    let ghost s = text@.subrange(from as int, to as int);
    let mut i: usize = from;
    while i < to
        invariant
            from <= i <= to <= text@.len(),
            s == text@.subrange(from as int, to as int),
            forall|k: int| 0 <= k < i - from ==> is_digit(s[k]),
        decreases to - i,
    {
        if !is_digit_exec(text[i]) {
            assert(s[i - from] == text@[i as int]);
            return false;
        }
        assert(s[i - from] == text@[i as int]);
        i += 1;
    }
    true
}

/// The first index at or after `from` holding a character other than `c`,
/// or the length of `s`.
pub open spec fn skip_char_from(s: Seq<char>, from: int, c: char) -> int
    decreases s.len() - from
        when 0 <= from <= s.len()
{
    if from >= s.len() {
        s.len() as int
    } else if s[from] == c {
        skip_char_from(s, from + 1, c)
    } else {
        from
    }
}


/// The length of `s` once trailing copies of `c` are dropped.
pub open spec fn rstrip_char(s: Seq<char>, c: char) -> int
    decreases s.len(),
{
    if s.len() > 0 && s.last() == c {
        rstrip_char(s.drop_last(), c)
    } else {
        s.len() as int
    }
}


/// The first index in `text` at or after `from` holding a character other
/// than `c`.
pub fn skip_char_exec(text: &Vec<char>, from: usize, c: char) -> (r: usize)
    requires
        from <= text@.len(),
    ensures
        r == skip_char_from(text@, from as int, c),
        from <= r <= text@.len(),
{
    let mut i: usize = from;
    while i < text.len()
        invariant
            from <= i <= text@.len(),
            skip_char_from(text@, from as int, c) == skip_char_from(text@, i as int, c),
        decreases text@.len() - i,
    {
        if text[i] != c {
            return i;
        }
        i += 1;
    }
    i
}

/// The length of `text` once trailing copies of `c` are dropped.
pub fn rstrip_char_exec(text: &Vec<char>, c: char) -> (r: usize)
    ensures
        r == rstrip_char(text@, c),
        r <= text@.len(),
{
    proof {
        assert(text@.subrange(0, text@.len() as int) =~= text@);
    }
    let mut i: usize = text.len();
    while i > 0 && text[i - 1] == c
        invariant
            i <= text@.len(),
            rstrip_char(text@, c) == rstrip_char(text@.subrange(0, i as int), c),
        decreases i,
    {
        proof {
            let s = text@.subrange(0, i as int);
            assert(s.last() == text@[i - 1]);
            assert(s.drop_last() =~= text@.subrange(0, i - 1));
        }
        i -= 1;
    }
    proof {
        let s = text@.subrange(0, i as int);
        if i > 0 {
            assert(s.last() == text@[i - 1]);
        }
        assert(rstrip_char(s, c) == s.len());
    }
    i
}

/// Whether `text` holds exactly the characters of `pat`.
pub fn eq_lit(text: &Vec<char>, pat: &str) -> (r: bool)
    ensures
        r == (text@ == pat@),
{
    let p = chars_of(pat);
    if text.len() != p.len() {
        return false;
    }
    if match_at(text, &p, 0) {
        proof {
            assert(text@ =~= p@);
        }
        true
    } else {
        false
    }
}

/// Whether `c` occurs in `s`.
pub open spec fn has_char(s: Seq<char>, c: char) -> bool {
    exists|i: int| 0 <= i < s.len() && s[i] == c
}

/// Whether `c` occurs in `text`.
pub fn contains_char(text: &Vec<char>, c: char) -> (r: bool)
    ensures
        r == has_char(text@, c),
{
    proof {
        lemma_first_char_in(text@, 0, text@.len() as int, c);
    }
    match find_char_in(text, 0, text.len(), c) {
        Some(_) => true,
        None => false,
    }
}

/// The index right after the last occurrence of `c` in `s`, or 0 when `c`
/// does not occur.
pub open spec fn after_last_char(s: Seq<char>, c: char) -> int
    decreases s.len(),
{
    if s.len() == 0 {
        0
    } else if s.last() == c {
        s.len() as int
    } else {
        after_last_char(s.drop_last(), c)
    }
}


/// The index right after the last occurrence of `c` in `text`, or 0.
pub fn after_last_char_exec(text: &Vec<char>, c: char) -> (r: usize)
    ensures
        r == after_last_char(text@, c),
        r <= text@.len(),
{
    proof {
        assert(text@.subrange(0, text@.len() as int) =~= text@);
    }
    let mut i: usize = text.len();
    while i > 0
        invariant
            i <= text@.len(),
            after_last_char(text@, c) == after_last_char(text@.subrange(0, i as int), c),
        decreases i,
    {
        proof {
            let s = text@.subrange(0, i as int);
            assert(s.last() == text@[i - 1]);
            assert(s.drop_last() =~= text@.subrange(0, i - 1));
        }
        if text[i - 1] == c {
            return i;
        }
        i -= 1;
    }
    proof {
        assert(text@.subrange(0, 0).len() == 0);
    }
    i
}

/// Relies on `str::to_ascii_lowercase`: ASCII upper-case letters are mapped
/// to their lower-case equivalents and every other character is unchanged.
#[verifier::external_body]
pub fn ascii_lower(s: &str) -> (r: String)
    ensures
        r@ == lower_seq(s@),
{
    s.to_ascii_lowercase()
}

} // verus!
