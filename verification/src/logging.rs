//! The rules of the plugin logger: where its log file goes, how a record is
//! written, and which line of a previous log file tells when it ended.

use vstd::prelude::*;
use crate::text::{
    chars_of, find_char, is_whitespace, lemma_lines_step, lines, push_char, push_str,
    skip_leading_whitespace, string_from, strip_cr, trim, trim_end, trim_start,
};

verus! {

/// What the `log-file` property asks of the logger.
#[derive(Debug, PartialEq, Eq)]
pub enum LogFileTarget {
    /// No log file (the property is empty).
    Disabled,
    /// A path that mpv must expand first (it starts with '~').
    Expand(String),
    /// A path to use as it stands.
    Path(String),
}

/// What the `log-file` property `path` asks of the logger.
pub open spec fn target_of(path: Seq<char>, t: LogFileTarget) -> bool {
    if path.len() > 0 && path[0] == '~' {
        t matches LogFileTarget::Expand(p) && p@ == path
    } else if path.len() == 0 {
        t == LogFileTarget::Disabled
    } else {
        t matches LogFileTarget::Path(p) && p@ == path
    }
}

/// What the `log-file` property `path` asks of the logger: a path starting
/// with '~' is expanded by mpv, an empty one disables the log file, any
/// other is used as it stands.
pub fn log_file_target(path: &str) -> (t: LogFileTarget)
    ensures
        target_of(path@, t),
{
    let chars = chars_of(path);
    assert(chars@.subrange(0, chars@.len() as int) =~= chars@);
    if chars.len() > 0 && chars[0] == '~' {
        LogFileTarget::Expand(string_from(&chars, 0, chars.len()))
    } else if chars.len() == 0 {
        LogFileTarget::Disabled
    } else {
        LogFileTarget::Path(string_from(&chars, 0, chars.len()))
    }
}

/// The position of the last `c` in `s`, or -1 when there is none.
pub open spec fn last_index(s: Seq<char>, c: char) -> int
    decreases s.len(),
{
    if s.len() == 0 {
        -1
    } else if s.last() == c {
        s.len() - 1
    } else {
        last_index(s.drop_last(), c)
    }
}

/// The position of the last path separator ('/' or '\\') of `s`, or -1.
pub open spec fn last_separator(s: Seq<char>) -> int
    decreases s.len(),
{
    if s.len() == 0 {
        -1
    } else if s.last() == '/' || s.last() == '\\' {
        s.len() - 1
    } else {
        last_separator(s.drop_last())
    }
}

/// The path of a plugin's own log file: `-` and the plugin's name are
/// inserted before the extension of the file name (the last '.' that comes
/// after the last separator), or appended when the file name has none.
pub open spec fn log_path_for(path: Seq<char>, module: Seq<char>) -> Seq<char> {
    let suffix = seq!['-'] + module;
    let dot = last_index(path, '.');
    let sep = last_separator(path);
    if dot < 0 || dot < sep {
        path + suffix
    } else {
        path.take(dot) + suffix + path.skip(dot)
    }
}

proof fn lemma_last_index_bound(s: Seq<char>, c: char)
    ensures
        -1 <= last_index(s, c) < s.len(),
    decreases s.len(),
{
    if s.len() > 0 && s.last() != c {
        lemma_last_index_bound(s.drop_last(), c);
    }
}

fn rfind_char(s: &Vec<char>, c: char) -> (r: Option<usize>)
    ensures
        r matches Some(i) ==> i == last_index(s@, c),
        r is None ==> last_index(s@, c) == -1,
{
    let mut j = s.len();
    assert(s@.take(j as int) =~= s@);
    while j > 0
        invariant
            j <= s@.len(),
            last_index(s@, c) == last_index(s@.take(j as int), c),
        decreases j,
    {
        assert(s@.take(j as int).drop_last() =~= s@.take(j - 1));
        if s[j - 1] == c {
            return Some(j - 1);
        }
        j -= 1;
    }
    None
}

fn rfind_separator(s: &Vec<char>) -> (r: Option<usize>)
    ensures
        r matches Some(i) ==> i == last_separator(s@),
        r is None ==> last_separator(s@) == -1,
{
    let mut j = s.len();
    assert(s@.take(j as int) =~= s@);
    while j > 0
        invariant
            j <= s@.len(),
            last_separator(s@) == last_separator(s@.take(j as int)),
        decreases j,
    {
        assert(s@.take(j as int).drop_last() =~= s@.take(j - 1));
        if s[j - 1] == '/' || s[j - 1] == '\\' {
            return Some(j - 1);
        }
        j -= 1;
    }
    None
}

/// The path of a plugin's own log file, derived from mpv's log file path.
pub fn log_file_path(path: &str, module: &str) -> (r: String)
    ensures
        r@ == log_path_for(path@, module@),
{
    let p = chars_of(path);
    assert(p@.take(p@.len() as int) =~= p@);
    let dot = rfind_char(&p, '.');
    let sep = rfind_separator(&p);
    let insert_at = match dot {
        None => None,
        Some(d) => match sep {
            Some(s) => if d < s {
                None
            } else {
                Some(d)
            },
            None => Some(d),
        },
    };
    let mut r = String::new();
    match insert_at {
        None => {
            push_str(&mut r, path);
            push_char(&mut r, '-');
            push_str(&mut r, module);
            assert(r@ =~= log_path_for(path@, module@));
        },
        Some(d) => {
            proof {
                lemma_last_index_bound(p@, '.');
            }
            let head = string_from(&p, 0, d);
            let tail = string_from(&p, d, p.len());
            push_str(&mut r, head.as_str());
            push_char(&mut r, '-');
            push_str(&mut r, module);
            push_str(&mut r, tail.as_str());
            assert(r@ =~= log_path_for(path@, module@));
        },
    }
    r
}

/// The severity of a log record.
#[derive(Debug, Clone, Copy, PartialEq, Eq, Structural)]
pub enum LogLevel {
    Error,
    Warn,
    Info,
    Debug,
    Trace,
}

/// The letter that marks a record's severity in the log file.
pub open spec fn level_letter(level: LogLevel) -> Seq<char> {
    match level {
        LogLevel::Error => "e"@,
        LogLevel::Warn => "w"@,
        LogLevel::Info => "i"@,
        LogLevel::Debug => "d"@,
        LogLevel::Trace => "v"@,
    }
}

/// The terminal escape sequences around a record on the console: red for
/// errors, yellow for warnings, none otherwise.
pub open spec fn level_colors(level: LogLevel) -> (Seq<char>, Seq<char>) {
    match level {
        LogLevel::Error => ("\x1b[31m"@, "\x1b[0m"@),
        LogLevel::Warn => ("\x1b[33m"@, "\x1b[0m"@),
        _ => (""@, ""@),
    }
}

impl LogLevel {
    /// The letter that marks this severity in the log file.
    pub fn letter(self) -> (s: &'static str)
        ensures
            s@ == level_letter(self),
    {
        proof {
            reveal_strlit("e");
            reveal_strlit("w");
            reveal_strlit("i");
            reveal_strlit("d");
            reveal_strlit("v");
        }
        match self {
            LogLevel::Error => "e",
            LogLevel::Warn => "w",
            LogLevel::Info => "i",
            LogLevel::Debug => "d",
            LogLevel::Trace => "v",
        }
    }

    /// The escape sequences that open and close a record on the console.
    pub fn colors(self) -> (c: (&'static str, &'static str))
        ensures
            (c.0@, c.1@) == level_colors(self),
    {
        proof {
            reveal_strlit("\x1b[31m");
            reveal_strlit("\x1b[33m");
            reveal_strlit("\x1b[0m");
            reveal_strlit("");
        }
        match self {
            LogLevel::Error => ("\x1b[31m", "\x1b[0m"),
            LogLevel::Warn => ("\x1b[33m", "\x1b[0m"),
            _ => ("", ""),
        }
    }
}

/// The line that a record is written as: the module in square brackets, a
/// space, the message and a newline.
pub open spec fn record_text(module: Seq<char>, message: Seq<char>) -> Seq<char> {
    seq!['['] + module + seq![']', ' '] + message + seq!['\n']
}

/// The line that a record of the plugin `module` is written as.
pub fn log_line(module: &str, message: &str) -> (s: String)
    ensures
        s@ == record_text(module@, message@),
{
    let mut s = String::new();
    push_char(&mut s, '[');
    push_str(&mut s, module);
    push_char(&mut s, ']');
    push_char(&mut s, ' ');
    push_str(&mut s, message);
    push_char(&mut s, '\n');
    assert(s@ =~= record_text(module@, message@));
    s
}

/// The last of the lines `ls` that is not blank, or `acc` when all are.
pub open spec fn last_nonblank(ls: Seq<Seq<char>>, acc: Seq<char>) -> Seq<char>
    decreases ls.len(),
{
    if ls.len() == 0 {
        acc
    } else {
        last_nonblank(
            ls.drop_first(),
            if trim(ls[0]).len() > 0 {
                ls[0]
            } else {
                acc
            },
        )
    }
}

proof fn lemma_trim_end_keeps_first(t: Seq<char>)
    requires
        t.len() > 0,
        !is_whitespace(t[0]),
    ensures
        trim_end(t).len() > 0,
    decreases t.len(),
{
    if t.len() > 1 && is_whitespace(t.last()) {
        lemma_trim_end_keeps_first(t.drop_last());
    }
}

proof fn lemma_blank_iff(t: Seq<char>)
    ensures
        (trim(t).len() > 0) == (trim_start(t).len() > 0),
    decreases t.len(),
{
    let u = trim_start(t);
    if u.len() > 0 {
        lemma_trim_start_first(t);
        lemma_trim_end_keeps_first(u);
    }
}

proof fn lemma_trim_start_first(t: Seq<char>)
    requires
        trim_start(t).len() > 0,
    ensures
        !is_whitespace(trim_start(t)[0]),
    decreases t.len(),
{
    if t.len() > 0 && is_whitespace(t[0]) {
        lemma_trim_start_first(t.drop_first());
    }
}

proof fn lemma_last_nonblank_cons(l: Seq<char>, rest: Seq<Seq<char>>, acc: Seq<char>)
    ensures
        last_nonblank(seq![l] + rest, acc) == last_nonblank(
            rest,
            if trim(l).len() > 0 {
                l
            } else {
                acc
            },
        ),
{
    assert((seq![l] + rest).drop_first() =~= rest);
}

/// The last line of a text that is not blank (of white space only), or
/// nothing when there is none.
#[verifier::loop_isolation(false)]
pub fn last_nonblank_line(text: &str) -> (r: String)
    ensures
        r@ == last_nonblank(lines(text@), seq![]),
{
    let s = chars_of(text);
    let n = s.len();
    let mut best: Option<(usize, usize)> = None;
    let mut pos: usize = 0;
    assert(s@.skip(0) =~= s@);
    while pos < n
        invariant
            pos <= n,
            n == s@.len(),
            best matches Some((a, b)) ==> a <= b <= n,
            last_nonblank(
                lines(s@.skip(pos as int)),
                match best {
                    None => seq![],
                    Some((a, b)) => s@.subrange(a as int, b as int),
                },
            ) == last_nonblank(lines(s@), seq![]),
        decreases n - pos,
    {
        let found = find_char(&s, pos, n, '\n');
        assert(s@.subrange(pos as int, n as int) =~= s@.skip(pos as int));
        let (line_end, next) = match found {
            None => (n, n),
            Some(i) => (i, i + 1),
        };
        let mut end = line_end;
        if found.is_some() && end > pos && s[end - 1] == '\r' {
            end = end - 1;
        }
        let ghost acc = match best {
            None => seq![],
            Some((a, b)) => s@.subrange(a as int, b as int),
        };
        proof {
            let i = match found {
                None => -1int,
                Some(i) => i - pos,
            };
            lemma_lines_step(s@, pos as int, i);
            lemma_blank_iff(s@.subrange(pos as int, end as int));
            if found is Some {
                assert(strip_cr(s@.subrange(pos as int, line_end as int)) =~= s@.subrange(
                    pos as int,
                    end as int,
                ));
                lemma_last_nonblank_cons(
                    s@.subrange(pos as int, end as int),
                    lines(s@.skip(next as int)),
                    acc,
                );
            } else {
                assert(s@.skip(n as int) =~= seq![]);
                assert(s@.subrange(pos as int, end as int) =~= s@.skip(pos as int));
                lemma_last_nonblank_cons(s@.subrange(pos as int, end as int), seq![], acc);
                assert(seq![s@.skip(pos as int)] + Seq::<Seq<char>>::empty() =~= seq![
                    s@.skip(pos as int),
                ]);
            }
        }
        let start = skip_leading_whitespace(&s, pos, end);
        if start < end {
            best = Some((pos, end));
        }
        pos = next;
    }
    assert(s@.skip(n as int) =~= seq![]);
    match best {
        None => String::new(),
        Some((a, b)) => string_from(&s, a, b),
    }
}

} // verus!
