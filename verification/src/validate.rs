//! Input validation: the URL grammar accepted for downloads, path
//! sanitisation, and the input-file and image-format rules for conversions.
//!
//! Everything here works on plain strings.  What only the operating system
//! can answer — whether a file exists, the home directory, the working
//! directory — is handed in by the caller as plain values.

use vstd::prelude::*;
use crate::errors::MediaForgeError;
use crate::text::after_last_char;
use crate::text::after_last_char_exec;
use crate::text::ascii_lower;
use crate::text::chars_of;
use crate::text::contains_char;
use crate::text::contains_lit;
use crate::text::contains_seq;
use crate::text::eq_lit;
use crate::text::has_char;
use crate::text::lower_seq;
use crate::text::match_at;
use crate::text::matches_at;
use crate::text::rstrip_char;
use crate::text::rstrip_char_exec;
use crate::text::starts_with;
use crate::text::starts_with_lit;
use crate::text::sub_vec;

verus! {

/// Whether the URL carries a scheme or character that could smuggle a
/// command or reach local files: `file`, `javascript`, `data` and `ftp`
/// schemes, line breaks, and shell metacharacters.
pub open spec fn spec_url_malicious(u: Seq<char>) -> bool {
    ||| starts_with(u, "file://"@)
    ||| starts_with(u, "javascript:"@)
    ||| starts_with(u, "data:"@)
    ||| starts_with(u, "ftp://"@)
    ||| has_char(u, '\n')
    ||| has_char(u, '\r')
    ||| has_char(u, ';')
    ||| has_char(u, '&')
    ||| has_char(u, '|')
    ||| has_char(u, '`')
    ||| has_char(u, '$')
    ||| has_char(u, '(')
    ||| has_char(u, ')')
}

/// A character allowed in a video or playlist identifier: an ASCII letter
/// or digit, `_` or `-`.
pub open spec fn is_word_char(c: char) -> bool {
    ||| (97 <= c as u32 && c as u32 <= 122)
    ||| (65 <= c as u32 && c as u32 <= 90)
    ||| (48 <= c as u32 && c as u32 <= 57)
    ||| c == '_'
    ||| c == '-'
}

/// What follows the scheme, for an `http` or `https` URL.
pub open spec fn after_scheme(u: Seq<char>) -> Option<Seq<char>> {
    if starts_with(u, "https://"@) {
        Some(u.subrange("https://"@.len() as int, u.len() as int))
    } else if starts_with(u, "http://"@) {
        Some(u.subrange("http://"@.len() as int, u.len() as int))
    } else {
        None
    }
}

/// What follows the prefix `p` of `s`.
pub open spec fn after_prefix(s: Seq<char>, p: Seq<char>) -> Seq<char>
    recommends
        starts_with(s, p),
{
    s.subrange(p.len() as int, s.len() as int)
}

/// An eleven-character identifier of word characters, followed by nothing
/// or by `delim` introducing extra query parameters.
pub open spec fn valid_id11_tail(s: Seq<char>, delim: char) -> bool {
    &&& s.len() >= 11
    &&& (forall|i: int| 0 <= i < 11 ==> is_word_char(#[trigger] s[i]))
    &&& (s.len() == 11 || s[11] == delim)
}

/// The end of the run of word characters starting at `from`.
pub open spec fn word_end(s: Seq<char>, from: int) -> int
    decreases s.len() - from
        when 0 <= from <= s.len()
{
    if from >= s.len() {
        s.len() as int
    } else if is_word_char(s[from]) {
        word_end(s, from + 1)
    } else {
        from
    }
}


/// A playlist identifier: one or more word characters, followed by nothing
/// or by `&` introducing extra query parameters.
pub open spec fn valid_list_tail(s: Seq<char>) -> bool {
    let e = word_end(s, 0);
    &&& e > 0
    &&& (e == s.len() || s[e] == '&')
}

/// The accepted shapes of a download URL: a watch, short-video or playlist
/// address on the service's plain, `www` or `music` hosts, after an `http`
/// or `https` scheme.
pub open spec fn spec_valid_youtube_url(u: Seq<char>) -> bool {
    match after_scheme(u) {
        None => false,
        Some(h) => {
            ||| (starts_with(h, "www.youtube.com/watch?v="@) && valid_id11_tail(
                after_prefix(h, "www.youtube.com/watch?v="@),
                '&',
            ))
            ||| (starts_with(h, "youtube.com/watch?v="@) && valid_id11_tail(
                after_prefix(h, "youtube.com/watch?v="@),
                '&',
            ))
            ||| (starts_with(h, "youtu.be/"@) && valid_id11_tail(
                after_prefix(h, "youtu.be/"@),
                '?',
            ))
            ||| (starts_with(h, "www.youtube.com/playlist?list="@) && valid_list_tail(
                after_prefix(h, "www.youtube.com/playlist?list="@),
            ))
            ||| (starts_with(h, "youtube.com/playlist?list="@) && valid_list_tail(
                after_prefix(h, "youtube.com/playlist?list="@),
            ))
            ||| (starts_with(h, "music.youtube.com/watch?v="@) && valid_id11_tail(
                after_prefix(h, "music.youtube.com/watch?v="@),
                '&',
            ))
            ||| (starts_with(h, "www.youtube.com/shorts/"@) && valid_id11_tail(
                after_prefix(h, "www.youtube.com/shorts/"@),
                '?',
            ))
            ||| (starts_with(h, "youtube.com/shorts/"@) && valid_id11_tail(
                after_prefix(h, "youtube.com/shorts/"@),
                '?',
            ))
        },
    }
}

/// Whether the URL passes validation: not malicious, and of an accepted
/// shape.
pub open spec fn spec_url_ok(u: Seq<char>) -> bool {
    !spec_url_malicious(u) && spec_valid_youtube_url(u)
}

/// The error URL validation returns for a rejected URL: which variant it
/// is, and its exact message.
pub open spec fn url_err_is(e: MediaForgeError, u: Seq<char>) -> bool {
    if spec_url_malicious(u) {
        e matches MediaForgeError::InvalidUrl(s) && s@
            == "URL contains potentially malicious characters or schemes"@
    } else {
        e matches MediaForgeError::InvalidUrl(s) && s@ == "URL is not a valid YouTube URL"@
    }
}

/// Whether `c` is a word character.
fn is_word_char_exec(c: char) -> (r: bool)
    ensures
        r == is_word_char(c),
{
    let u = c as u32;
    (97 <= u && u <= 122) || (65 <= u && u <= 90) || (48 <= u && u <= 57) || c == '_' || c == '-'
}

/// What follows `pat` when `pat` is a prefix of `rest`.
fn tail_after(rest: &Vec<char>, pat: &str) -> (r: Option<Vec<char>>)
    ensures
        match r {
            Some(t) => starts_with(rest@, pat@) && t@ == after_prefix(rest@, pat@),
            None => !starts_with(rest@, pat@),
        },
{
    let p = chars_of(pat);
    if p.len() > rest.len() {
        return None;
    }
    if match_at(rest, &p, 0) {
        Some(sub_vec(rest, p.len(), rest.len()))
    } else {
        None
    }
}

/// Whether `tail` is an eleven-character identifier with an optional
/// `delim`-introduced suffix.
fn check_id11(tail: &Vec<char>, delim: char) -> (r: bool)
    ensures
        r == valid_id11_tail(tail@, delim),
{
    if tail.len() < 11 {
        return false;
    }
    let mut i: usize = 0;
    while i < 11
        invariant
            i <= 11 <= tail@.len(),
            forall|k: int| 0 <= k < i ==> is_word_char(#[trigger] tail@[k]),
        decreases 11 - i,
    {
        if !is_word_char_exec(tail[i]) {
            return false;
        }
        i += 1;
    }
    if tail.len() == 11 {
        true
    } else {
        tail[11] == delim
    }
}

/// Whether `tail` is a playlist identifier with an optional suffix.
fn check_list_tail(tail: &Vec<char>) -> (r: bool)
    ensures
        r == valid_list_tail(tail@),
{
    let n = tail.len();
    let mut i: usize = 0;
    while i < n && is_word_char_exec(tail[i])
        invariant
            i <= n == tail@.len(),
            word_end(tail@, 0) == word_end(tail@, i as int),
        decreases n - i,
    {
        i += 1;
    }
    if i == 0 {
        return false;
    }
    if i == n {
        true
    } else {
        tail[i] == '&'
    }
}

/// Validates a download URL: rejects URLs with dangerous schemes or shell
/// metacharacters, then accepts exactly the recognised address shapes.
pub fn validate_youtube_url(url: &str) -> (r: Result<(), MediaForgeError>)
    ensures
        r is Ok <==> spec_url_ok(url@),
        r matches Err(e) ==> url_err_is(e, url@),
{
    let u = chars_of(url);
    if starts_with_lit(&u, "file://") || starts_with_lit(&u, "javascript:") || starts_with_lit(
        &u,
        "data:",
    ) || starts_with_lit(&u, "ftp://") || contains_char(&u, '\n') || contains_char(&u, '\r')
        || contains_char(&u, ';') || contains_char(&u, '&') || contains_char(&u, '|')
        || contains_char(&u, '`') || contains_char(&u, '$') || contains_char(&u, '(')
        || contains_char(&u, ')') {
        return Err(
            MediaForgeError::InvalidUrl(
                String::from_str("URL contains potentially malicious characters or schemes"),
            ),
        );
    }
    let rest = match tail_after(&u, "https://") {
        Some(t) => Some(t),
        None => tail_after(&u, "http://"),
    };
    let ok: bool = match rest {
        None => false,
        Some(h) => {
            let mut any: bool = false;
            match tail_after(&h, "www.youtube.com/watch?v=") {
                Some(t) => {
                    if check_id11(&t, '&') {
                        any = true;
                    }
                },
                None => {},
            }
            match tail_after(&h, "youtube.com/watch?v=") {
                Some(t) => {
                    if check_id11(&t, '&') {
                        any = true;
                    }
                },
                None => {},
            }
            match tail_after(&h, "youtu.be/") {
                Some(t) => {
                    if check_id11(&t, '?') {
                        any = true;
                    }
                },
                None => {},
            }
            match tail_after(&h, "www.youtube.com/playlist?list=") {
                Some(t) => {
                    if check_list_tail(&t) {
                        any = true;
                    }
                },
                None => {},
            }
            match tail_after(&h, "youtube.com/playlist?list=") {
                Some(t) => {
                    if check_list_tail(&t) {
                        any = true;
                    }
                },
                None => {},
            }
            match tail_after(&h, "music.youtube.com/watch?v=") {
                Some(t) => {
                    if check_id11(&t, '&') {
                        any = true;
                    }
                },
                None => {},
            }
            match tail_after(&h, "www.youtube.com/shorts/") {
                Some(t) => {
                    if check_id11(&t, '?') {
                        any = true;
                    }
                },
                None => {},
            }
            match tail_after(&h, "youtube.com/shorts/") {
                Some(t) => {
                    if check_id11(&t, '?') {
                        any = true;
                    }
                },
                None => {},
            }
            any
        },
    };
    if ok {
        Ok(())
    } else {
        Err(MediaForgeError::InvalidUrl(String::from_str("URL is not a valid YouTube URL")))
    }
}

/// `p` with a leading `~/` rewritten to the home directory.
pub open spec fn expand_home(p: Seq<char>, home: Seq<char>) -> Seq<char> {
    if starts_with(p, "~/"@) {
        home + p.subrange(1, p.len() as int)
    } else {
        p
    }
}

/// Whether position `i` starts a `..` path component of `p`.
pub open spec fn is_dotdot_at(p: Seq<char>, i: int) -> bool {
    &&& 0 <= i
    &&& i + 2 <= p.len()
    &&& p[i] == '.'
    &&& p[i + 1] == '.'
    &&& (i == 0 || p[i - 1] == '/')
    &&& (i + 2 == p.len() || p[i + 2] == '/')
}

/// Whether some path component of `p` is `..`.
pub open spec fn has_dotdot(p: Seq<char>) -> bool {
    exists|i: int| is_dotdot_at(p, i)
}

/// Whether `p` holds a doubled path separator.
pub open spec fn has_double_sep(p: Seq<char>) -> bool {
    contains_seq(p, "//"@) || contains_seq(p, "\\\\"@)
}

/// `p` made absolute against the working directory `cwd`.
pub open spec fn absolutize(p: Seq<char>, cwd: Seq<char>) -> Seq<char> {
    if starts_with(p, "/"@) {
        p
    } else if cwd.len() > 0 && cwd.last() == '/' {
        cwd + p
    } else {
        cwd + "/"@ + p
    }
}

/// Whether the path reaches into a system or credential directory.
pub open spec fn touches_system_paths(c: Seq<char>) -> bool {
    ||| starts_with(c, "/etc"@)
    ||| starts_with(c, "/sys"@)
    ||| starts_with(c, "/proc"@)
    ||| starts_with(c, "/boot"@)
    ||| starts_with(c, "/root"@)
    ||| contains_seq(c, "/.ssh/"@)
    ||| contains_seq(c, "/.gnupg/"@)
}

/// The destination path after `~/` expansion and absolutisation.
pub open spec fn spec_canonical(path: Seq<char>, home: Seq<char>, cwd: Seq<char>) -> Seq<char> {
    absolutize(expand_home(path, home), cwd)
}

/// Whether the destination path passes sanitisation.
pub open spec fn spec_sanitize_ok(path: Seq<char>, home: Seq<char>, cwd: Seq<char>) -> bool {
    let e = expand_home(path, home);
    &&& !has_dotdot(e)
    &&& !has_double_sep(e)
    &&& !touches_system_paths(absolutize(e, cwd))
}

/// The error path sanitisation returns for a rejected path: which variant
/// it is, and its exact message.
pub open spec fn sanitize_err_is(
    er: MediaForgeError,
    path: Seq<char>,
    home: Seq<char>,
    cwd: Seq<char>,
) -> bool {
    let e = expand_home(path, home);
    if has_dotdot(e) {
        er matches MediaForgeError::InvalidSettings(s) && s@
            == "Path traversal detected: '..' not allowed in paths"@
    } else if has_double_sep(e) {
        er matches MediaForgeError::InvalidSettings(s) && s@
            == "Invalid path: double separators not allowed"@
    } else {
        er matches MediaForgeError::InvalidSettings(s) && s@
            == "Access to system directories is not allowed"@
    }
}

/// Whether some path component of `text` is `..`.
fn has_dotdot_exec(text: &Vec<char>) -> (r: bool)
    ensures
        r == has_dotdot(text@),
{
    let n = text.len();
    if n < 2 {
        return false;
    }
    let mut i: usize = 0;
    while i <= n - 2
        invariant
            2 <= n == text@.len(),
            i <= n - 1,
            forall|k: int| 0 <= k < i ==> !is_dotdot_at(text@, k),
        decreases n - i,
    {
        if text[i] == '.' && text[i + 1] == '.' && (i == 0 || text[i - 1] == '/') && (i + 2 == n
            || text[i + 2] == '/') {
            assert(is_dotdot_at(text@, i as int));
            return true;
        }
        i += 1;
    }
    false
}

/// Whether the system-path rule rejects `text`.
fn touches_system_paths_exec(text: &Vec<char>) -> (r: bool)
    ensures
        r == touches_system_paths(text@),
{
    starts_with_lit(text, "/etc") || starts_with_lit(text, "/sys") || starts_with_lit(
        text,
        "/proc",
    ) || starts_with_lit(text, "/boot") || starts_with_lit(text, "/root") || contains_lit(
        text,
        "/.ssh/",
    ) || contains_lit(text, "/.gnupg/")
}

/// Sanitises a destination path.  The caller supplies the environment as
/// plain values: the home directory (for `~/` expansion) and the working
/// directory (to make a relative path absolute).  Rejects `..` components,
/// doubled separators and system directories; otherwise returns the
/// expanded, absolute path.
pub fn sanitize_path(path: &str, home: &str, cwd: &str) -> (r: Result<String, MediaForgeError>)
    ensures
        r is Ok <==> spec_sanitize_ok(path@, home@, cwd@),
        r matches Ok(s) ==> s@ == spec_canonical(path@, home@, cwd@),
        r matches Err(er) ==> sanitize_err_is(er, path@, home@, cwd@),
{
    let u = chars_of(path);
    let expanded: String = if starts_with_lit(&u, "~/") {
        proof {
            reveal_strlit("~/");
        }
        let n = path.unicode_len();
        String::from_str(home).concat(path.substring_char(1, n))
    } else {
        path.to_owned()
    };
    let e = chars_of(expanded.as_str());
    if has_dotdot_exec(&e) {
        return Err(
            MediaForgeError::InvalidSettings(
                String::from_str("Path traversal detected: '..' not allowed in paths"),
            ),
        );
    }
    if contains_lit(&e, "//") || contains_lit(&e, "\\\\") {
        return Err(
            MediaForgeError::InvalidSettings(
                String::from_str("Invalid path: double separators not allowed"),
            ),
        );
    }
    let canonical: String = if starts_with_lit(&e, "/") {
        expanded
    } else {
        let w = chars_of(cwd);
        let ends_sep = if w.len() > 0 {
            let c = w[w.len() - 1];
            proof {
                assert(cwd@.last() == w@[w@.len() - 1]);
            }
            c == '/'
        } else {
            false
        };
        if ends_sep {
            String::from_str(cwd).concat(expanded.as_str())
        } else {
            String::from_str(cwd).concat("/").concat(expanded.as_str())
        }
    };
    let cv = chars_of(canonical.as_str());
    if touches_system_paths_exec(&cv) {
        return Err(
            MediaForgeError::InvalidSettings(
                String::from_str("Access to system directories is not allowed"),
            ),
        );
    }
    Ok(canonical)
}

/// The final component of the path `p`: what follows the last separator
/// once trailing separators are dropped.  `None` when that component is
/// empty, `.` or `..`.
pub open spec fn spec_file_name(p: Seq<char>) -> Option<Seq<char>> {
    let t = rstrip_char(p, '/');
    let s = p.subrange(0, t);
    let a = after_last_char(s, '/');
    let name = s.subrange(a, s.len() as int);
    if name.len() == 0 || name == "."@ || name == ".."@ {
        None
    } else {
        Some(name)
    }
}

/// The bounds of the path's final component.
pub fn file_name_range(text: &Vec<char>) -> (r: Option<(usize, usize)>)
    ensures
        match r {
            Some(b) => b.0 <= b.1 <= text@.len() && spec_file_name(text@) == Some(
                text@.subrange(b.0 as int, b.1 as int),
            ),
            None => spec_file_name(text@) is None,
        },
{
    let t = rstrip_char_exec(text, '/');
    let s = sub_vec(text, 0, t);
    let a = after_last_char_exec(&s, '/');
    let name = sub_vec(&s, a, s.len());
    proof {
        assert(name@ =~= text@.subrange(a as int, t as int));
    }
    if name.len() == 0 || eq_lit(&name, ".") || eq_lit(&name, "..") {
        None
    } else {
        Some((a, t))
    }
}

/// The extension of the path's final component: what follows its last dot,
/// unless the component has no dot or only a leading one.
pub open spec fn spec_path_extension(p: Seq<char>) -> Option<Seq<char>> {
    match spec_file_name(p) {
        None => None,
        Some(name) => {
            let d = after_last_char(name, '.');
            if d <= 1 {
                None
            } else {
                Some(name.subrange(d, name.len() as int))
            }
        },
    }
}

/// The bounds of the path's extension.
fn path_extension_range(text: &Vec<char>) -> (r: Option<(usize, usize)>)
    ensures
        match r {
            Some(b) => b.0 <= b.1 <= text@.len() && spec_path_extension(text@) == Some(
                text@.subrange(b.0 as int, b.1 as int),
            ),
            None => spec_path_extension(text@) is None,
        },
{
    match file_name_range(text) {
        None => None,
        Some((a, t)) => {
            let name = sub_vec(text, a, t);
            let d = after_last_char_exec(&name, '.');
            if d <= 1 {
                None
            } else {
                proof {
                    assert(name@.subrange(d as int, name@.len() as int) =~= text@.subrange(
                        a + d,
                        t as int,
                    ));
                }
                Some((a + d, t))
            }
        },
    }
}

/// Whether the lower-cased extension `e` names a file type that must not be
/// handed to a conversion tool: scripts, executables, libraries and
/// packages.
pub open spec fn is_dangerous_ext(e: Seq<char>) -> bool {
    ||| e == "sh"@
    ||| e == "bash"@
    ||| e == "zsh"@
    ||| e == "fish"@
    ||| e == "csh"@
    ||| e == "py"@
    ||| e == "pl"@
    ||| e == "rb"@
    ||| e == "php"@
    ||| e == "js"@
    ||| e == "exe"@
    ||| e == "com"@
    ||| e == "bat"@
    ||| e == "cmd"@
    ||| e == "so"@
    ||| e == "dylib"@
    ||| e == "dll"@
    ||| e == "deb"@
    ||| e == "rpm"@
    ||| e == "pkg"@
}

/// Whether the lower-cased extension `e` is accepted as conversion input.
pub open spec fn is_safe_input_ext(e: Seq<char>) -> bool {
    ||| e == "png"@
    ||| e == "jpg"@
    ||| e == "jpeg"@
    ||| e == "webp"@
    ||| e == "gif"@
    ||| e == "bmp"@
    ||| e == "tiff"@
    ||| e == "tif"@
    ||| e == "ico"@
    ||| e == "psd"@
}

/// Whether the lower-cased format `e` is accepted as conversion output.
pub open spec fn is_safe_output_ext(e: Seq<char>) -> bool {
    ||| e == "png"@
    ||| e == "jpg"@
    ||| e == "jpeg"@
    ||| e == "webp"@
    ||| e == "gif"@
    ||| e == "bmp"@
    ||| e == "tiff"@
    ||| e == "tif"@
    ||| e == "ico"@
}

/// Whether the lower-cased extension held by `low` is dangerous.
fn is_dangerous_ext_exec(low: &Vec<char>) -> (r: bool)
    ensures
        r == is_dangerous_ext(low@),
{
    eq_lit(low, "sh") || eq_lit(low, "bash") || eq_lit(low, "zsh") || eq_lit(low, "fish")
        || eq_lit(low, "csh") || eq_lit(low, "py") || eq_lit(low, "pl") || eq_lit(low, "rb")
        || eq_lit(low, "php") || eq_lit(low, "js") || eq_lit(low, "exe") || eq_lit(low, "com")
        || eq_lit(low, "bat") || eq_lit(low, "cmd") || eq_lit(low, "so") || eq_lit(low, "dylib")
        || eq_lit(low, "dll") || eq_lit(low, "deb") || eq_lit(low, "rpm") || eq_lit(low, "pkg")
}

/// Whether the lower-cased extension held by `low` is accepted as input.
fn is_safe_input_ext_exec(low: &Vec<char>) -> (r: bool)
    ensures
        r == is_safe_input_ext(low@),
{
    eq_lit(low, "png") || eq_lit(low, "jpg") || eq_lit(low, "jpeg") || eq_lit(low, "webp")
        || eq_lit(low, "gif") || eq_lit(low, "bmp") || eq_lit(low, "tiff") || eq_lit(low, "tif")
        || eq_lit(low, "ico") || eq_lit(low, "psd")
}

/// Whether the lower-cased format held by `low` is accepted as output.
fn is_safe_output_ext_exec(low: &Vec<char>) -> (r: bool)
    ensures
        r == is_safe_output_ext(low@),
{
    eq_lit(low, "png") || eq_lit(low, "jpg") || eq_lit(low, "jpeg") || eq_lit(low, "webp")
        || eq_lit(low, "gif") || eq_lit(low, "bmp") || eq_lit(low, "tiff") || eq_lit(low, "tif")
        || eq_lit(low, "ico")
}

/// What the caller found out about an input path by probing the
/// filesystem.
#[derive(Debug, Clone, Copy, PartialEq, Eq, Structural)]
pub struct FileStatus {
    pub exists: bool,
    pub is_file: bool,
}

/// Whether an input file passes validation: it exists as a regular file
/// outside the system directories, and its extension (when it has one) is
/// not a script, executable, library or package type.
pub open spec fn spec_input_ok(p: Seq<char>, st: FileStatus) -> bool {
    &&& st.exists
    &&& st.is_file
    &&& !touches_system_paths(p)
    &&& (match spec_path_extension(p) {
        Some(ext) => !is_dangerous_ext(lower_seq(ext)),
        None => true,
    })
}

/// The error input-file validation returns for a rejected file: which
/// variant it is, and its exact message.
pub open spec fn input_err_is(e: MediaForgeError, p: Seq<char>, st: FileStatus) -> bool {
    if !st.exists {
        e matches MediaForgeError::FileSystemError(s) && s@ == "Input file does not exist: "@ + p
    } else if !st.is_file {
        e matches MediaForgeError::FileSystemError(s) && s@ == "Path is not a file: "@ + p
    } else if touches_system_paths(p) {
        e matches MediaForgeError::InvalidSettings(s) && s@
            == "Access to system files is not allowed"@
    } else {
        match spec_path_extension(p) {
            Some(ext) => e matches MediaForgeError::InvalidSettings(s) && s@
                == "File type not allowed for conversion: ."@ + lower_seq(ext),
            None => true,
        }
    }
}

/// Validates a conversion input file.  Whether the path exists and is a
/// regular file is probed by the caller and handed in; the path rules and
/// the extension rules are decided here.
pub fn validate_input_file(file_path: &str, exists: bool, is_file: bool) -> (r: Result<
    (),
    MediaForgeError,
>)
    ensures
        r is Ok <==> spec_input_ok(file_path@, (FileStatus { exists, is_file })),
        r matches Err(e) ==> input_err_is(e, file_path@, (FileStatus { exists, is_file })),
{
    if !exists {
        return Err(
            MediaForgeError::FileSystemError(
                String::from_str("Input file does not exist: ").concat(file_path),
            ),
        );
    }
    if !is_file {
        return Err(
            MediaForgeError::FileSystemError(
                String::from_str("Path is not a file: ").concat(file_path),
            ),
        );
    }
    let p = chars_of(file_path);
    if touches_system_paths_exec(&p) {
        return Err(
            MediaForgeError::InvalidSettings(
                String::from_str("Access to system files is not allowed"),
            ),
        );
    }
    match path_extension_range(&p) {
        None => Ok(()),
        Some((a, b)) => {
            let low = ascii_lower(file_path.substring_char(a, b));
            let lowc = chars_of(low.as_str());
            if is_dangerous_ext_exec(&lowc) {
                Err(
                    MediaForgeError::InvalidSettings(
                        String::from_str("File type not allowed for conversion: .").concat(
                            low.as_str(),
                        ),
                    ),
                )
            } else {
                Ok(())
            }
        },
    }
}

/// Whether an image conversion's formats pass validation: the input path's
/// extension (when it has one) is a recognised image type, and the
/// requested output format is one the engine can safely produce.
pub open spec fn spec_image_ok(p: Seq<char>, of: Seq<char>) -> bool {
    &&& (match spec_path_extension(p) {
        Some(ext) => is_safe_input_ext(lower_seq(ext)),
        None => true,
    })
    &&& is_safe_output_ext(lower_seq(of))
}

/// The error image-format validation returns for a rejected conversion:
/// which variant it is, and its exact message.
pub open spec fn image_err_is(e: MediaForgeError, p: Seq<char>, of: Seq<char>) -> bool {
    let bad_input = match spec_path_extension(p) {
        Some(ext) => !is_safe_input_ext(lower_seq(ext)),
        None => false,
    };
    if bad_input {
        match spec_path_extension(p) {
            Some(ext) => e matches MediaForgeError::InvalidSettings(s) && s@
                == "Input image format not supported: ."@ + lower_seq(ext),
            None => true,
        }
    } else {
        e matches MediaForgeError::InvalidSettings(s) && s@
            == "Output image format not supported: ."@ + of
    }
}

/// Validates the image formats of a conversion: the input path's extension
/// (when it has one) must be a recognised image type, and the requested
/// output format must be one the engine can safely produce.
pub fn validate_image_format(input_path: &str, output_format: &str) -> (r: Result<
    (),
    MediaForgeError,
>)
    ensures
        r is Ok <==> spec_image_ok(input_path@, output_format@),
        r matches Err(e) ==> image_err_is(e, input_path@, output_format@),
{
    let p = chars_of(input_path);
    match path_extension_range(&p) {
        None => {},
        Some((a, b)) => {
            let low = ascii_lower(input_path.substring_char(a, b));
            let lowc = chars_of(low.as_str());
            if !is_safe_input_ext_exec(&lowc) {
                return Err(
                    MediaForgeError::InvalidSettings(
                        String::from_str("Input image format not supported: .").concat(
                            low.as_str(),
                        ),
                    ),
                );
            }
        },
    }
    let out_low = ascii_lower(output_format);
    let outc = chars_of(out_low.as_str());
    if !is_safe_output_ext_exec(&outc) {
        return Err(
            MediaForgeError::InvalidSettings(
                String::from_str("Output image format not supported: .").concat(output_format),
            ),
        );
    }
    Ok(())
}

} // verus!
