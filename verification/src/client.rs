//! Arguments that the client handle prepares for mpv: the name of a new
//! client and the command that shows a text on screen.

use vstd::prelude::*;
use crate::text::{decimal, push_decimal, push_str};

verus! {

/// The name under which a new client is created: none (mpv then picks one)
/// when no name or an empty name is given.
pub fn client_name(name: Option<&str>) -> (r: Option<String>)
    ensures
        match name {
            None => r is None,
            Some(n) => if n@.len() == 0 {
                r is None
            } else {
                r matches Some(s) && s@ == n@
            },
        },
{
    match name {
        None => None,
        Some(n) => {
            if n.is_empty() {
                None
            } else {
                let mut s = String::new();
                push_str(&mut s, n);
                Some(s)
            }
        },
    }
}

/// The arguments of the command that shows `text` on screen for
/// `duration_ms` milliseconds.
pub open spec fn osd_command(text: Seq<char>, duration_ms: nat) -> Seq<Seq<char>> {
    seq!["show-text"@, text, decimal(duration_ms)]
}

/// The view of a sequence of strings.
pub open spec fn strings_view(v: Seq<String>) -> Seq<Seq<char>> {
    Seq::new(v.len(), |i: int| v[i]@)
}

/// The arguments of the `show-text` command for `text` and a duration in
/// milliseconds.
pub fn osd_args(text: &str, duration_ms: u128) -> (r: Vec<String>)
    ensures
        strings_view(r@) == osd_command(text@, duration_ms as nat),
{
    let mut cmd = String::new();
    push_str(&mut cmd, "show-text");
    let mut t = String::new();
    push_str(&mut t, text);
    let mut d = String::new();
    push_decimal(&mut d, duration_ms);
    proof {
        reveal_strlit("show-text");
    }
    let mut r: Vec<String> = Vec::new();
    r.push(cmd);
    r.push(t);
    r.push(d);
    assert(strings_view(r@) =~= osd_command(text@, duration_ms as nat));
    r
}

} // verus!
