//! Plugin options: the `key=value` lines of a plugin's configuration file,
//! the `<plugin>-<key>` entries of mpv's `script-opts` property, and the
//! option map built from both, where `script-opts` take precedence.

use vstd::prelude::*;
use crate::assoc::{
    distinct_keys, entries_insert, has_key, insert_all, last_value, lemma_insert_all_distinct,
    lemma_insert_all_lookup, lemma_insert_keeps_distinct, lookup,
};
use crate::node::{entries_value, Node, NodeValue};
use crate::text::{
    chars_of, drop_trailing_whitespace, find_char, first_index, lemma_first_index_bound,
    lemma_lines_prepend, lemma_lines_step, lemma_trim_end_prefix, lemma_trim_start_drop_last,
    lemma_trim_start_first, lemma_trim_start_stops, lines, push_str, skip_leading_whitespace,
    is_whitespace, string_from, strip_cr, trim, trim_end, trim_start,
};

verus! {

/// The option that a line of a configuration file sets: none for a line
/// that is blank or starts with '#' once its leading white space is
/// skipped, or that holds no '='; otherwise the key before the first '='
/// without surrounding white space, and the value after it as it stands.
pub open spec fn config_entry(line: Seq<char>) -> Option<(Seq<char>, Seq<char>)> {
    let t = trim_start(line);
    if t.len() == 0 || t[0] == '#' {
        None
    } else {
        let i = first_index(t, '=');
        if i < 0 {
            None
        } else {
            Some((trim(t.take(i)), t.skip(i + 1)))
        }
    }
}

/// The options that a sequence of lines sets, in order.
pub open spec fn entries_of_lines(ls: Seq<Seq<char>>) -> Seq<(Seq<char>, Seq<char>)>
    decreases ls.len(),
{
    if ls.len() == 0 {
        seq![]
    } else {
        match config_entry(ls[0]) {
            Some(e) => seq![e] + entries_of_lines(ls.drop_first()),
            None => entries_of_lines(ls.drop_first()),
        }
    }
}

/// The options that a configuration file sets, in order.
pub open spec fn config_entries(content: Seq<char>) -> Seq<(Seq<char>, Seq<char>)> {
    entries_of_lines(lines(content))
}

/// The view of a sequence of string pairs.
pub open spec fn pairs_view(s: Seq<(String, String)>) -> Seq<(Seq<char>, Seq<char>)> {
    Seq::new(s.len(), |i: int| (s[i].0@, s[i].1@))
}

/// Whether `s` starts with `p`.
pub open spec fn starts_with(s: Seq<char>, p: Seq<char>) -> bool {
    p.len() <= s.len() && s.take(p.len() as int) == p
}

/// The prefix that names a plugin's entries in `script-opts`: its name and
/// a '-'.
pub open spec fn option_prefix(plugin_name: Seq<char>) -> Seq<char> {
    plugin_name.push('-')
}

/// The options that `script-opts` entries set for a plugin, in order: each
/// entry whose key starts with the prefix and whose value is a string sets
/// the key without the prefix to that string.
pub open spec fn script_overrides(prefix: Seq<char>, so: Seq<(Seq<char>, NodeValue)>) -> Seq<
    (Seq<char>, Seq<char>),
>
    decreases so.len(),
{
    if so.len() == 0 {
        seq![]
    } else {
        let rest = script_overrides(prefix, so.drop_first());
        let (k, v) = so[0];
        if starts_with(k, prefix) && v is Str {
            seq![(k.skip(prefix.len() as int), v->Str_0)] + rest
        } else {
            rest
        }
    }
}

/// The options of a plugin: those of its configuration file (if it could
/// be read), then those of `script-opts`, each inserted in order so that a
/// later setting of a key replaces an earlier one.
pub open spec fn options_map(
    plugin_name: Seq<char>,
    config: Option<Seq<char>>,
    so: Seq<(Seq<char>, NodeValue)>,
) -> Seq<(Seq<char>, Seq<char>)> {
    let from_file = match config {
        Some(c) => config_entries(c),
        None => seq![],
    };
    insert_all(insert_all(seq![], from_file), script_overrides(option_prefix(plugin_name), so))
}

/// The name of a plugin's configuration file: its name and ".conf".
pub open spec fn config_file_name(plugin_name: Seq<char>) -> Seq<char> {
    plugin_name + ".conf"@
}

/// The name of a plugin's configuration file (in the `script-opts`
/// directory of mpv's configuration directory).
pub fn options_file_name(plugin_name: &str) -> (r: String)
    ensures
        r@ == config_file_name(plugin_name@),
{
    let mut r = String::new();
    push_str(&mut r, plugin_name);
    push_str(&mut r, ".conf");
    proof {
        reveal_strlit(".conf");
    }
    r
}

proof fn lemma_entries_of_lines_cons(l: Seq<char>, rest: Seq<Seq<char>>)
    ensures
        entries_of_lines(seq![l] + rest) == (match config_entry(l) {
            Some(e) => seq![e] + entries_of_lines(rest),
            None => entries_of_lines(rest),
        }),
{
    assert((seq![l] + rest).drop_first() =~= rest);
}

/// The option that the line `s[lo..hi]` sets.
fn parse_line(s: &Vec<char>, lo: usize, hi: usize) -> (r: Option<(String, String)>)
    requires
        lo <= hi <= s@.len(),
    ensures
        match r {
            None => config_entry(s@.subrange(lo as int, hi as int)) is None,
            Some((k, v)) => config_entry(s@.subrange(lo as int, hi as int)) == Some((k@, v@)),
        },
{
    let start = skip_leading_whitespace(s, lo, hi);
    let ghost t = s@.subrange(start as int, hi as int);
    if start == hi || s[start] == '#' {
        return None;
    }
    match find_char(s, start, hi, '=') {
        None => None,
        Some(eq) => {
            let kstart = skip_leading_whitespace(s, start, eq);
            let kend = drop_trailing_whitespace(s, kstart, eq);
            let key = string_from(s, kstart, kend);
            let value = string_from(s, eq + 1, hi);
            proof {
                let i = eq - start;
                assert(t.take(i) =~= s@.subrange(start as int, eq as int));
                assert(t.skip(i + 1) =~= s@.subrange(eq + 1, hi as int));
            }
            Some((key, value))
        },
    }
}

/// The position of the option with key `k`, if any.
fn find_option(m: &Vec<(String, String)>, k: &String) -> (r: Option<usize>)
    ensures
        r matches Some(j) ==> j < m@.len() && m@[j as int].0@ == k@,
        r is None ==> forall|i: int| 0 <= i < m@.len() ==> (#[trigger] m@[i]).0@ != k@,
{
    let mut j: usize = 0;
    while j < m.len()
        invariant
            j <= m@.len(),
            forall|i: int| 0 <= i < j ==> (#[trigger] m@[i]).0@ != k@,
        decreases m@.len() - j,
    {
        if m[j].0 == *k {
            return Some(j);
        }
        j += 1;
    }
    None
}

/// Inserts an option: the entry with key `k` takes the value `v`, or, if
/// there is none, a new entry comes last.
fn insert_option(m: &mut Vec<(String, String)>, k: String, v: String)
    requires
        distinct_keys(pairs_view(old(m)@)),
    ensures
        pairs_view(final(m)@) == entries_insert(pairs_view(old(m)@), k@, v@),
        distinct_keys(pairs_view(final(m)@)),
{
    let ghost pv = pairs_view(m@);
    let ghost kv = k@;
    let ghost vv = v@;
    proof {
        lemma_insert_keeps_distinct(pv, kv, vv);
    }
    match find_option(m, &k) {
        Some(j) => {
            proof {
                assert(pv[j as int].0 == kv);
                let c = choose|i: int| 0 <= i < pv.len() && pv[i].0 == kv;
                assert(c == j);
            }
            m.set(j, (k, v));
            assert(pairs_view(m@) =~= pv.update(j as int, (kv, vv)));
            return;
        },
        None => {},
    }
    assert(!has_key(pv, kv)) by {
        if has_key(pv, kv) {
            let c = choose|i: int| 0 <= i < pv.len() && pv[i].0 == kv;
            assert(m@[c].0@ != kv);
        }
    }
    m.push((k, v));
    assert(pairs_view(m@) =~= pv.push((kv, vv)));
}

/// The options that a configuration file sets, in order of their lines.
#[verifier::loop_isolation(false)]
pub fn parse_config(content: &str) -> (r: Vec<(String, String)>)
    ensures
        pairs_view(r@) == config_entries(content@),
        forall|i: int|
            0 <= i < r@.len() ==> (#[trigger] r@[i]).0@.len() == 0 || r@[i].0@[0] != '#',
{
    let s = chars_of(content);
    let n = s.len();
    let mut out: Vec<(String, String)> = Vec::new();
    let mut pos: usize = 0;
    assert(s@.skip(0) =~= s@);
    while pos < n
        invariant
            pos <= n,
            n == s@.len(),
            pairs_view(out@) + entries_of_lines(lines(s@.skip(pos as int))) == config_entries(
                s@,
            ),
        decreases n - pos,
    {
        let ghost before = pairs_view(out@);
        let found = find_char(&s, pos, n, '\n');
        assert(s@.subrange(pos as int, n as int) =~= s@.skip(pos as int));
        let (line_end, next) = match found {
            None => (n, n),
            Some(i) => (i, i + 1),
        };
        let mut end = line_end;
        if found.is_some() && end > pos && s[end - 1] == '\r' {
            end = end - 1;
        }
        proof {
            let i = match found {
                None => -1int,
                Some(i) => i - pos,
            };
            lemma_lines_step(s@, pos as int, i);
            if found is Some {
                assert(strip_cr(s@.subrange(pos as int, line_end as int)) =~= s@.subrange(
                    pos as int,
                    end as int,
                ));
                lemma_entries_of_lines_cons(
                    s@.subrange(pos as int, end as int),
                    lines(s@.skip(next as int)),
                );
            } else {
                assert(s@.skip(n as int) =~= seq![]);
                assert(s@.subrange(pos as int, end as int) =~= s@.skip(pos as int));
                lemma_entries_of_lines_cons(s@.subrange(pos as int, end as int), seq![]);
                assert(seq![s@.skip(pos as int)] + Seq::<Seq<char>>::empty() =~= seq![
                    s@.skip(pos as int),
                ]);
            }
        }
        match parse_line(&s, pos, end) {
            None => {},
            Some(e) => {
                out.push(e);
                assert(pairs_view(out@) =~= before + seq![
                    (out@[out@.len() - 1].0@, out@[out@.len() - 1].1@),
                ]);
            },
        }
        pos = next;
    }
    assert(s@.skip(n as int) =~= seq![]);
    assert(pairs_view(out@) + seq![] =~= pairs_view(out@));
    proof {
        lemma_config_keys_not_comments(content@);
        assert forall|i: int| 0 <= i < out@.len() implies (#[trigger] out@[i]).0@.len() == 0
            || out@[i].0@[0] != '#' by {
            assert(pairs_view(out@)[i] == config_entries(content@)[i]);
        }
    }
    out
}


/// A line whose first character after its leading white space is '#' is a
/// comment: it sets no option.
pub proof fn lemma_comment_line_sets_nothing(l: Seq<char>)
    requires
        trim_start(l).len() > 0,
        trim_start(l)[0] == '#',
    ensures
        config_entry(l) is None,
{
}

/// A comment line (one without '\n' whose first character after its
/// leading white space is '#') put before a configuration file changes
/// none of the options that the file sets.
pub proof fn lemma_comment_line_changes_nothing(l: Seq<char>, content: Seq<char>)
    requires
        !l.contains('\n'),
        trim_start(l).len() > 0,
        trim_start(l)[0] == '#',
    ensures
        config_entries(l + seq!['\n'] + content) == config_entries(content),
{
    lemma_lines_prepend(l, content);
    let first = strip_cr(l);
    if l.len() > 0 && l.last() == '\r' {
        lemma_trim_start_first(l);
        lemma_trim_start_drop_last(l);
        assert(trim_start(l).last() == '\r');
        assert(trim_start(l).len() >= 2);
    }
    assert(trim_start(first).len() > 0 && trim_start(first)[0] == '#');
    lemma_entries_of_lines_cons(first, lines(content));
}

/// A key read from a line does not start with '#', nor with white space.
proof fn lemma_entry_key(l: Seq<char>)
    ensures
        config_entry(l) matches Some((k, v)) ==> k.len() == 0 || (k[0] != '#' && !is_whitespace(
            k[0],
        )),
{
    let t = trim_start(l);
    lemma_trim_start_first(l);
    if t.len() > 0 && t[0] != '#' {
        let i = first_index(t, '=');
        lemma_first_index_bound(t, '=');
        if i > 0 {
            let x = t.take(i);
            assert(x[0] == t[0]);
            lemma_trim_start_stops(x);
            lemma_trim_end_prefix(x);
            let k = trim_end(x);
            if k.len() > 0 {
                assert(k[0] == x[0]);
            }
        } else if i == 0 {
            assert(t.take(0) =~= seq![]);
            lemma_trim_start_stops(t.take(0));
            lemma_trim_end_prefix(t.take(0));
        }
    }
}

/// No option that a configuration file sets has a key that starts with
/// '#' (or with white space): a commented-out line never becomes an
/// option.
pub proof fn lemma_config_keys_not_comments(content: Seq<char>)
    ensures
        forall|i: int|
            0 <= i < config_entries(content).len() ==> (#[trigger] config_entries(content)[i]).0.len()
                == 0 || (config_entries(content)[i].0[0] != '#' && !is_whitespace(
                config_entries(content)[i].0[0],
            )),
{
    lemma_lines_keys_not_comments(lines(content));
}

proof fn lemma_lines_keys_not_comments(ls: Seq<Seq<char>>)
    ensures
        forall|i: int|
            0 <= i < entries_of_lines(ls).len() ==> (#[trigger] entries_of_lines(ls)[i]).0.len()
                == 0 || (entries_of_lines(ls)[i].0[0] != '#' && !is_whitespace(
                entries_of_lines(ls)[i].0[0],
            )),
    decreases ls.len(),
{
    if ls.len() > 0 {
        lemma_lines_keys_not_comments(ls.drop_first());
        lemma_entry_key(ls[0]);
        let rest = entries_of_lines(ls.drop_first());
        match config_entry(ls[0]) {
            Some(e) => {
                assert forall|i: int| 0 <= i < entries_of_lines(ls).len() implies (
                #[trigger] entries_of_lines(ls)[i]).0.len() == 0 || (entries_of_lines(ls)[i].0[0]
                    != '#' && !is_whitespace(entries_of_lines(ls)[i].0[0])) by {
                    if i > 0 {
                        assert(entries_of_lines(ls)[i] == rest[i - 1]);
                    }
                }
            },
            None => {},
        }
    }
}

proof fn lemma_script_overrides_step(prefix: Seq<char>, so: Seq<(Seq<char>, NodeValue)>, i: int)
    requires
        0 <= i < so.len(),
    ensures
        script_overrides(prefix, so.skip(i)) == (if starts_with(so[i].0, prefix) && so[i].1 is Str {
            seq![(so[i].0.skip(prefix.len() as int), so[i].1->Str_0)] + script_overrides(
                prefix,
                so.skip(i + 1),
            )
        } else {
            script_overrides(prefix, so.skip(i + 1))
        }),
{
    assert(so.skip(i).drop_first() =~= so.skip(i + 1));
}

/// Whether the characters `key` start with the characters `prefix`.
fn has_prefix(key: &Vec<char>, prefix: &Vec<char>) -> (b: bool)
    ensures
        b == starts_with(key@, prefix@),
{
    if prefix.len() > key.len() {
        return false;
    }
    let mut i: usize = 0;
    while i < prefix.len()
        invariant
            prefix@.len() <= key@.len(),
            i <= prefix@.len(),
            forall|j: int| 0 <= j < i ==> key@[j] == prefix@[j],
        decreases prefix@.len() - i,
    {
        if key[i] != prefix[i] {
            assert(key@.take(prefix@.len() as int)[i as int] != prefix@[i as int]);
            return false;
        }
        i += 1;
    }
    assert(key@.take(prefix@.len() as int) =~= prefix@);
    true
}

/// The options that the `script-opts` entries set for a plugin, in order:
/// an entry named by the plugin's name, a '-' and a key sets that key to its
/// value, when the value is a string.
pub fn script_opt_overrides(plugin_name: &str, script_opts: &Vec<(String, Node)>) -> (r: Vec<
    (String, String),
>)
    ensures
        pairs_view(r@) == script_overrides(option_prefix(plugin_name@), entries_value(script_opts@)),
{
    let mut prefix = chars_of(plugin_name);
    prefix.push('-');
    let ghost ev = entries_value(script_opts@);
    let ghost p = option_prefix(plugin_name@);
    assert(prefix@ =~= p);
    let mut out: Vec<(String, String)> = Vec::new();
    let mut i: usize = 0;
    assert(ev.skip(0) =~= ev);
    while i < script_opts.len()
        invariant
            i <= script_opts@.len(),
            ev == entries_value(script_opts@),
            ev.len() == script_opts@.len(),
            prefix@ == p,
            pairs_view(out@) + script_overrides(p, ev.skip(i as int)) == script_overrides(p, ev),
        decreases script_opts@.len() - i,
    {
        let ghost before = pairs_view(out@);
        proof {
            lemma_script_overrides_step(p, ev, i as int);
            assert(ev[i as int] == (script_opts@[i as int].0@, script_opts@[i as int].1.value()));
        }
        let key = chars_of(script_opts[i].0.as_str());
        if has_prefix(&key, &prefix) {
            match &script_opts[i].1 {
                Node::String(v) => {
                    let clean = string_from(&key, prefix.len(), key.len());
                    assert(clean@ =~= ev[i as int].0.skip(p.len() as int));
                    out.push((clean, v.clone()));
                    assert(pairs_view(out@) =~= before + seq![
                        (ev[i as int].0.skip(p.len() as int), ev[i as int].1->Str_0),
                    ]);
                },
                _ => {},
            }
        }
        i += 1;
    }
    assert(ev.skip(ev.len() as int) =~= seq![]);
    assert(pairs_view(out@) + seq![] =~= pairs_view(out@));
    out
}

proof fn lemma_insert_all_step(m: Seq<(Seq<char>, Seq<char>)>, ps: Seq<(Seq<char>, Seq<char>)>, i: int)
    requires
        0 <= i < ps.len(),
    ensures
        insert_all(m, ps.skip(i)) == insert_all(entries_insert(m, ps[i].0, ps[i].1), ps.skip(i + 1)),
{
    assert(ps.skip(i).drop_first() =~= ps.skip(i + 1));
}

/// Inserts the options `ps` in order.
fn insert_options(m: &mut Vec<(String, String)>, ps: &Vec<(String, String)>)
    requires
        distinct_keys(pairs_view(old(m)@)),
    ensures
        pairs_view(final(m)@) == insert_all(pairs_view(old(m)@), pairs_view(ps@)),
        distinct_keys(pairs_view(final(m)@)),
{
    let ghost pv = pairs_view(ps@);
    let ghost target = insert_all(pairs_view(m@), pv);
    let mut i: usize = 0;
    assert(pv.skip(0) =~= pv);
    while i < ps.len()
        invariant
            i <= ps@.len(),
            pv == pairs_view(ps@),
            distinct_keys(pairs_view(m@)),
            insert_all(pairs_view(m@), pv.skip(i as int)) == target,
        decreases ps@.len() - i,
    {
        proof {
            lemma_insert_all_step(pairs_view(m@), pv, i as int);
        }
        insert_option(m, ps[i].0.clone(), ps[i].1.clone());
        i += 1;
    }
    assert(pv.skip(i as int) =~= seq![]);
}

/// The options of a plugin, from its configuration file (`None` when the
/// file could not be read) and the `script-opts` entries: every option the
/// file sets, then every option the entries set, a later setting of a key
/// replacing an earlier one.
pub fn collect_options(plugin_name: &str, config: Option<&str>, script_opts: &Vec<(String, Node)>) -> (r: Vec<
    (String, String),
>)
    ensures
        pairs_view(r@) == options_map(
            plugin_name@,
            match config {
                Some(c) => Some(c@),
                None => None,
            },
            entries_value(script_opts@),
        ),
        distinct_keys(pairs_view(r@)),
{
    let mut m: Vec<(String, String)> = Vec::new();
    assert(pairs_view(m@) =~= seq![]);
    match config {
        Some(c) => {
            let entries = parse_config(c);
            insert_options(&mut m, &entries);
        },
        None => {},
    }
    let overrides = script_opt_overrides(plugin_name, script_opts);
    insert_options(&mut m, &overrides);
    m
}

/// Options set in `script-opts` take precedence over those of the
/// configuration file, and of several settings of a key the last one
/// counts: a key looks up the value of the last `script-opts` entry that
/// sets it, or else the value of the last line of the file that sets it,
/// or else nothing.
pub proof fn lemma_options_precedence(
    plugin_name: Seq<char>,
    config: Option<Seq<char>>,
    so: Seq<(Seq<char>, NodeValue)>,
    k: Seq<char>,
)
    ensures
        lookup(options_map(plugin_name, config, so), k) == last_value(
            script_overrides(option_prefix(plugin_name), so),
            k,
            last_value(
                match config {
                    Some(c) => config_entries(c),
                    None => seq![],
                },
                k,
                None,
            ),
        ),
{
    let from_file = match config {
        Some(c) => config_entries(c),
        None => seq![],
    };
    let empty: Seq<(Seq<char>, Seq<char>)> = seq![];
    assert(!has_key(empty, k));
    lemma_insert_all_lookup(empty, from_file, k);
    lemma_insert_all_distinct(empty, from_file);
    lemma_insert_all_lookup(
        insert_all(empty, from_file),
        script_overrides(option_prefix(plugin_name), so),
        k,
    );
}

} // verus!
