//! Character-level helpers shared by the rest of the library: decimal
//! rendering of integers and building strings character by character.

use vstd::prelude::*;

verus! {

/// The character of a decimal digit `d` (`0 <= d < 10`).
pub open spec fn digit_char(d: nat) -> char {
    ((48 + d) as u32) as char
}

/// The decimal rendering of a natural number, most significant digit first,
/// without leading zeros ("0" for zero).
pub open spec fn decimal(n: nat) -> Seq<char>
    decreases n,
{
    if n < 10 {
        seq![digit_char(n)]
    } else {
        decimal(n / 10).push(digit_char(n % 10))
    }
}

/// The decimal rendering of an integer, with a leading '-' when negative.
pub open spec fn signed_decimal(n: int) -> Seq<char> {
    if n < 0 {
        seq!['-'] + decimal((-n) as nat)
    } else {
        decimal(n as nat)
    }
}

/// Appends one character to a string by `String::push`; trusted to leave
/// the string's characters followed by `c`.
#[verifier::external_body]
pub(crate) fn push_char(s: &mut String, c: char)
    ensures
        final(s)@ == old(s)@.push(c),
{
    s.push(c);
}

/// Appends a string slice to a string by `String::push_str`; trusted to
/// leave the string's characters followed by those of `t`.
#[verifier::external_body]
pub(crate) fn push_str(s: &mut String, t: &str)
    ensures
        final(s)@ == old(s)@ + t@,
{
    s.push_str(t);
}

fn digit(d: u128) -> (c: char)
    requires
        d < 10,
    ensures
        c == digit_char(d as nat),
{
    let b: u8 = 48u8 + (d as u8);
    b as char
}

/// Appends the decimal rendering of `n` to `s`.
pub fn push_decimal(s: &mut String, n: u128)
    ensures
        final(s)@ == old(s)@ + decimal(n as nat),
    decreases n,
{
    if n >= 10 {
        push_decimal(s, n / 10);
    }
    push_char(s, digit(n % 10));
    assert(decimal(n as nat) == (if n < 10 { seq![digit_char(n as nat)] } else {
        decimal((n / 10) as nat).push(digit_char((n % 10) as nat))
    }));
}

/// Appends the decimal rendering of `n` to `s`, with a leading '-' when
/// `n` is negative.
pub fn push_signed_decimal(s: &mut String, n: i64)
    ensures
        final(s)@ == old(s)@ + signed_decimal(n as int),
{
    if n < 0 {
        push_char(s, '-');
        let m: i128 = n as i128;
        push_decimal(s, (-m) as u128);
    } else {
        push_decimal(s, n as u128);
    }
}

} // verus!
verus! {

/// The characters of a string slice.
pub fn chars_of(s: &str) -> (v: Vec<char>)
    ensures
        v@ == s@,
{
    let mut v: Vec<char> = Vec::new();
    for c in it: s.chars()
        invariant
            v@ == it.seq().take(it.index() as int),
    {
        v.push(c);
    }
    v
}

} // verus!
verus! {

/// A string made of the characters `s[lo..hi]`.
pub fn string_from(s: &Vec<char>, lo: usize, hi: usize) -> (r: String)
    requires
        lo <= hi <= s@.len(),
    ensures
        r@ == s@.subrange(lo as int, hi as int),
{
    let mut r = String::new();
    let mut i = lo;
    while i < hi
        invariant
            lo <= i <= hi,
            hi <= s@.len(),
            r@ == s@.subrange(lo as int, i as int),
        decreases hi - i,
    {
        push_char(&mut r, s[i]);
        i += 1;
        assert(r@ =~= s@.subrange(lo as int, i as int));
    }
    r
}

/// Whether a character is white space in the sense of Unicode's
/// `White_Space` property (what `char::is_whitespace` tests).
pub open spec fn is_whitespace(c: char) -> bool {
    let u = c as u32;
    (0x9 <= u <= 0xD) || u == 0x20 || u == 0x85 || u == 0xA0 || u == 0x1680 || (0x2000 <= u
        <= 0x200A) || u == 0x2028 || u == 0x2029 || u == 0x202F || u == 0x205F || u == 0x3000
}

/// Whether a character is white space (Unicode `White_Space`).
pub fn char_is_whitespace(c: char) -> (b: bool)
    ensures
        b == is_whitespace(c),
{
    let u = c as u32;
    (0x9 <= u && u <= 0xD) || u == 0x20 || u == 0x85 || u == 0xA0 || u == 0x1680 || (0x2000 <= u
        && u <= 0x200A) || u == 0x2028 || u == 0x2029 || u == 0x202F || u == 0x205F || u == 0x3000
}

/// A sequence without its leading white space (`str::trim_start`).
pub open spec fn trim_start(s: Seq<char>) -> Seq<char>
    decreases s.len(),
{
    if s.len() > 0 && is_whitespace(s[0]) {
        trim_start(s.drop_first())
    } else {
        s
    }
}

/// A sequence without its trailing white space (`str::trim_end`).
pub open spec fn trim_end(s: Seq<char>) -> Seq<char>
    decreases s.len(),
{
    if s.len() > 0 && is_whitespace(s.last()) {
        trim_end(s.drop_last())
    } else {
        s
    }
}

/// A sequence without its leading and trailing white space (`str::trim`).
pub open spec fn trim(s: Seq<char>) -> Seq<char> {
    trim_end(trim_start(s))
}

/// The position where `s[lo..hi]` starts once its leading white space is
/// skipped.
pub fn skip_leading_whitespace(s: &Vec<char>, lo: usize, hi: usize) -> (r: usize)
    requires
        lo <= hi <= s@.len(),
    ensures
        lo <= r <= hi,
        s@.subrange(r as int, hi as int) == trim_start(s@.subrange(lo as int, hi as int)),
{
    let mut i = lo;
    while i < hi && char_is_whitespace(s[i])
        invariant
            lo <= i <= hi,
            hi <= s@.len(),
            trim_start(s@.subrange(i as int, hi as int)) == trim_start(
                s@.subrange(lo as int, hi as int),
            ),
        decreases hi - i,
    {
        assert(s@.subrange(i as int, hi as int).drop_first() =~= s@.subrange(
            i + 1,
            hi as int,
        ));
        i += 1;
    }
    proof {
        lemma_trim_start_stops(s@.subrange(i as int, hi as int));
    }
    i
}

pub proof fn lemma_trim_start_stops(t: Seq<char>)
    requires
        t.len() == 0 || !is_whitespace(t[0]),
    ensures
        trim_start(t) == t,
{
}

/// The position where `s[lo..hi]` ends once its trailing white space is
/// dropped.
pub fn drop_trailing_whitespace(s: &Vec<char>, lo: usize, hi: usize) -> (r: usize)
    requires
        lo <= hi <= s@.len(),
    ensures
        lo <= r <= hi,
        s@.subrange(lo as int, r as int) == trim_end(s@.subrange(lo as int, hi as int)),
{
    let mut j = hi;
    while j > lo && char_is_whitespace(s[j - 1])
        invariant
            lo <= j <= hi,
            hi <= s@.len(),
            trim_end(s@.subrange(lo as int, j as int)) == trim_end(
                s@.subrange(lo as int, hi as int),
            ),
        decreases j - lo,
    {
        assert(s@.subrange(lo as int, j as int).drop_last() =~= s@.subrange(
            lo as int,
            j - 1,
        ));
        j -= 1;
    }
    j
}

/// The position of the first `c` in `s`, or -1 when there is none.
pub open spec fn first_index(s: Seq<char>, c: char) -> int
    decreases s.len(),
{
    if s.len() == 0 {
        -1
    } else if s[0] == c {
        0
    } else {
        let r = first_index(s.drop_first(), c);
        if r < 0 {
            -1
        } else {
            r + 1
        }
    }
}

/// The first position of a character lies in the sequence and holds it.
pub proof fn lemma_first_index_bound(s: Seq<char>, c: char)
    ensures
        first_index(s, c) < s.len(),
        first_index(s, c) >= 0 ==> s[first_index(s, c)] == c,
    decreases s.len(),
{
    if s.len() > 0 && s[0] != c {
        lemma_first_index_bound(s.drop_first(), c);
    }
}

proof fn lemma_first_index_step(s: Seq<char>, lo: int, hi: int, c: char)
    requires
        0 <= lo < hi <= s.len(),
        s[lo] != c,
    ensures
        first_index(s.subrange(lo, hi), c) == (if first_index(s.subrange(lo + 1, hi), c) < 0 {
            -1
        } else {
            first_index(s.subrange(lo + 1, hi), c) + 1
        }),
{
    assert(s.subrange(lo, hi).drop_first() =~= s.subrange(lo + 1, hi));
}

/// The position of the first `c` in `s[lo..hi]`, counted from `lo`.
pub fn find_char(s: &Vec<char>, lo: usize, hi: usize, c: char) -> (r: Option<usize>)
    requires
        lo <= hi <= s@.len(),
    ensures
        r matches Some(i) ==> lo <= i < hi && first_index(s@.subrange(lo as int, hi as int), c)
            == i - lo,
        r is None ==> first_index(s@.subrange(lo as int, hi as int), c) == -1,
    decreases hi - lo,
{
    if lo == hi {
        return None;
    }
    if s[lo] == c {
        return Some(lo);
    }
    proof {
        lemma_first_index_step(s@, lo as int, hi as int, c);
    }
    find_char(s, lo + 1, hi, c)
}

/// A line without the carriage return that ends it, if any.
pub open spec fn strip_cr(line: Seq<char>) -> Seq<char> {
    if line.len() > 0 && line.last() == '\r' {
        line.drop_last()
    } else {
        line
    }
}

/// The lines of a text (`str::lines`): split after each '\n', each line
/// without its '\n' or "\r\n" ending; a final line needs no ending, and
/// there is no empty line after a final '\n'.
pub open spec fn lines(s: Seq<char>) -> Seq<Seq<char>>
    decreases s.len(),
{
    if s.len() == 0 {
        seq![]
    } else {
        let i = first_index(s, '\n');
        proof {
            lemma_first_index_bound(s, '\n');
        }
        if i < 0 {
            seq![s]
        } else {
            seq![strip_cr(s.take(i))] + lines(s.skip(i + 1))
        }
    }
}

/// How the lines of `s` from position `pos` on begin: with the line up to
/// the first '\n' (the position `pos + i` of which is given), or with the
/// rest of the text when there is none.
pub proof fn lemma_lines_step(s: Seq<char>, pos: int, i: int)
    requires
        0 <= pos < s.len(),
        first_index(s.skip(pos), '\n') == i,
    ensures
        i < 0 ==> lines(s.skip(pos)) == seq![s.skip(pos)],
        i >= 0 ==> pos + i < s.len() && lines(s.skip(pos)) == seq![
            strip_cr(s.subrange(pos, pos + i)),
        ] + lines(s.skip(pos + i + 1)),
{
    if i >= 0 {
        lemma_first_index_bound(s.skip(pos), '\n');
        assert(s.skip(pos).take(i) =~= s.subrange(pos, pos + i));
        assert(s.skip(pos).skip(i + 1) =~= s.skip(pos + i + 1));
    }
}

/// Leading white space is skipped up to the first character that is not
/// white space.
pub proof fn lemma_trim_start_first(s: Seq<char>)
    ensures
        trim_start(s).len() <= s.len(),
        trim_start(s).len() > 0 ==> !is_whitespace(trim_start(s)[0]),
        trim_start(s) == s.skip(s.len() - trim_start(s).len()),
    decreases s.len(),
{
    if s.len() > 0 && is_whitespace(s[0]) {
        lemma_trim_start_first(s.drop_first());
        assert(s.drop_first().skip(s.drop_first().len() - trim_start(s).len()) =~= s.skip(
            s.len() - trim_start(s).len(),
        ));
    } else {
        assert(s.skip(0) =~= s);
    }
}

/// Dropping trailing white space leaves a prefix.
pub proof fn lemma_trim_end_prefix(s: Seq<char>)
    ensures
        trim_end(s).len() <= s.len(),
        trim_end(s) == s.take(trim_end(s).len() as int),
    decreases s.len(),
{
    if s.len() > 0 && is_whitespace(s.last()) {
        lemma_trim_end_prefix(s.drop_last());
        assert(s.drop_last().take(trim_end(s).len() as int) =~= s.take(trim_end(s).len() as int));
    } else {
        assert(s.take(s.len() as int) =~= s);
    }
}

/// Dropping the last character of a sequence whose trimmed start is not
/// empty drops the last character of its trimmed start.
pub proof fn lemma_trim_start_drop_last(s: Seq<char>)
    requires
        trim_start(s).len() > 0,
    ensures
        trim_start(s.drop_last()) == trim_start(s).drop_last(),
    decreases s.len(),
{
    if s.len() > 0 && is_whitespace(s[0]) {
        lemma_trim_start_drop_last(s.drop_first());
        assert(s.drop_last().drop_first() =~= s.drop_first().drop_last());
        assert(s.drop_last().len() > 0);
    } else {
        if s.drop_last().len() > 0 {
            assert(s.drop_last()[0] == s[0]);
        }
    }
}

/// In `l`, then `ch`, then `c`, where `l` does not hold `ch`, the first
/// `ch` is the one just after `l`.
pub proof fn lemma_first_index_after(l: Seq<char>, ch: char, c: Seq<char>)
    requires
        !l.contains(ch),
    ensures
        first_index(l + seq![ch] + c, ch) == l.len(),
    decreases l.len(),
{
    if l.len() == 0 {
        assert((l + seq![ch] + c)[0] == ch);
    } else {
        assert(l[0] != ch);
        assert(!l.drop_first().contains(ch)) by {
            if l.drop_first().contains(ch) {
                let j = choose|j: int| 0 <= j < l.drop_first().len() && l.drop_first()[j] == ch;
                assert(l[j + 1] == ch);
            }
        }
        lemma_first_index_after(l.drop_first(), ch, c);
        assert((l + seq![ch] + c).drop_first() =~= l.drop_first() + seq![ch] + c);
    }
}

/// The lines of a line `l` (without '\n'), a '\n' and a text `c` are the
/// line `l` (without a final carriage return) followed by the lines of `c`.
pub proof fn lemma_lines_prepend(l: Seq<char>, c: Seq<char>)
    requires
        !l.contains('\n'),
    ensures
        lines(l + seq!['\n'] + c) == seq![strip_cr(l)] + lines(c),
{
    let s = l + seq!['\n'] + c;
    lemma_first_index_after(l, '\n', c);
    assert(s.take(l.len() as int) =~= l);
    assert(s.skip(l.len() as int + 1) =~= c);
}

} // verus!
