//! The cells of the deployment history table.

use vstd::prelude::*;

use crate::model::{Deployment, meta_get};
use crate::text::{
    before, before_char, chars_of, first_line, first_line_chars, replace_char,
    replace_char_chars, string_of, strip_end, strip_end_chars, take_chars, take_prefix, trim,
    trim_chars,
};

verus! {

/// Longest commit message shown.
pub const MESSAGE_MAX: usize = 50;

/// Longest author name shown.
pub const AUTHOR_MAX: usize = 18;

/// Characters of the commit hash shown.
pub const SHORT_HASH: usize = 7;

/// `s` if it has at most `max` characters; otherwise its first `max - 1`
/// characters followed by an ellipsis.
pub open spec fn truncate_text(s: Seq<char>, max: nat) -> Seq<char> {
    if s.len() <= max {
        s
    } else {
        s.take(max - 1).push('…')
    }
}

/// Shortens `s` to at most `max` characters, marking a cut with `…`.
pub fn truncate(s: &str, max: usize) -> (r: String)
    requires
        max > 0 || s@.len() <= max,
    ensures
        r@ == truncate_text(s@, max as nat),
{
    let cs = chars_of(s);
    truncate_chars(cs.as_slice(), max)
}

/// [`truncate`] on characters.
pub fn truncate_chars(cs: &[char], max: usize) -> (r: String)
    requires
        max > 0 || cs@.len() <= max,
    ensures
        r@ == truncate_text(cs@, max as nat),
{
    if cs.len() <= max {
        return string_of(cs);
    }
    let mut head = take_prefix(cs, max - 1);
    head.push('…');
    string_of(head.as_slice())
}

/// `yyyy-mm-ddThh:mm:ss.fffZ` shown as `yyyy-mm-dd hh:mm:ss`: every `T`
/// becomes a space, everything from the first `.` on is dropped, and so are
/// trailing `Z`s.
pub open spec fn short_time_text(iso: Seq<char>) -> Seq<char> {
    strip_end(before(replace_char(iso, 'T', ' '), '.'), 'Z')
}

/// The compact form of a timestamp (see [`short_time_text`]).
pub fn short_time(iso: &str) -> (r: String)
    ensures
        r@ == short_time_text(iso@),
{
    let cs = chars_of(iso);
    let compact = replace_char_chars(cs.as_slice(), 'T', ' ');
    let head = before_char(compact.as_slice(), '.');
    let trimmed = strip_end_chars(head.as_slice(), 'Z');
    string_of(trimmed.as_slice())
}

/// The first line of a text (empty for an empty text).
pub open spec fn first_line_or_empty(s: Seq<char>) -> Seq<char> {
    match first_line(s) {
        Some(l) => l,
        None => Seq::empty(),
    }
}

/// The first line of `cs`, or nothing.
pub fn first_line_or_empty_chars(cs: &[char]) -> (r: Vec<char>)
    ensures
        r@ == first_line_or_empty(cs@),
{
    match first_line_chars(cs) {
        Some(l) => l,
        None => Vec::new(),
    }
}

/// The COMMIT cell: the first characters of a nonempty commit hash.
pub open spec fn commit_cell_text(d: Deployment) -> Option<Seq<char>> {
    match meta_get(d.meta_seq(), "commitHash"@) {
        Some(h) => if h.len() > 0 {
            Some(take_chars(h, SHORT_HASH as nat))
        } else {
            None
        },
        None => None,
    }
}

/// The AUTHOR cell: the trimmed author, shortened, when it is not blank.
pub open spec fn author_cell_text(d: Deployment) -> Option<Seq<char>> {
    match meta_get(d.meta_seq(), "commitAuthor"@) {
        Some(a) => if trim(a).len() > 0 {
            Some(truncate_text(trim(a), AUTHOR_MAX as nat))
        } else {
            None
        },
        None => None,
    }
}

/// The MESSAGE cell: the trimmed first line of a non-blank commit message,
/// shortened.
pub open spec fn message_cell_text(d: Deployment) -> Option<Seq<char>> {
    match meta_get(d.meta_seq(), "commitMessage"@) {
        Some(m) => if trim(m).len() > 0 {
            Some(truncate_text(trim(first_line_or_empty(m)), MESSAGE_MAX as nat))
        } else {
            None
        },
        None => None,
    }
}

/// The COMMIT cell of a deployment; `None` where the table shows a dash.
pub fn commit_cell(d: &Deployment) -> (r: Option<String>)
    ensures
        r matches Some(t) ==> commit_cell_text(*d) == Some(t@),
        r is None <==> commit_cell_text(*d) is None,
{
    match d.commit_hash() {
        Some(h) => {
            let cs = chars_of(h);
            if cs.len() > 0 {
                let short = take_prefix(cs.as_slice(), SHORT_HASH);
                Some(string_of(short.as_slice()))
            } else {
                None
            }
        },
        None => None,
    }
}

/// The AUTHOR cell of a deployment; `None` where the table shows a dash.
pub fn author_cell(d: &Deployment) -> (r: Option<String>)
    ensures
        r matches Some(t) ==> author_cell_text(*d) == Some(t@),
        r is None <==> author_cell_text(*d) is None,
{
    match d.commit_author() {
        Some(a) => {
            let cs = chars_of(a);
            let t = trim_chars(cs.as_slice());
            if t.len() > 0 {
                Some(truncate_chars(t.as_slice(), AUTHOR_MAX))
            } else {
                None
            }
        },
        None => None,
    }
}

/// The MESSAGE cell of a deployment; `None` where the table shows a dash.
pub fn message_cell(d: &Deployment) -> (r: Option<String>)
    ensures
        r matches Some(t) ==> message_cell_text(*d) == Some(t@),
        r is None <==> message_cell_text(*d) is None,
{
    match d.commit_message() {
        Some(m) => {
            let cs = chars_of(m);
            let t = trim_chars(cs.as_slice());
            if t.len() > 0 {
                let line = first_line_or_empty_chars(cs.as_slice());
                let lt = trim_chars(line.as_slice());
                Some(truncate_chars(lt.as_slice(), MESSAGE_MAX))
            } else {
                None
            }
        },
        None => None,
    }
}

/// Shortening never yields more than `max` characters, leaves short texts
/// alone, and shortening twice changes nothing more.
pub proof fn truncate_laws(s: Seq<char>, max: nat)
    requires
        max > 0,
    ensures
        truncate_text(s, max).len() <= max,
        s.len() <= max ==> truncate_text(s, max) == s,
        truncate_text(truncate_text(s, max), max) == truncate_text(s, max),
        s.len() > max ==> truncate_text(s, max).last() == '…',
{
}

/// A compact timestamp holds no `T` and does not end in `Z`.
pub proof fn short_time_laws(iso: Seq<char>)
    ensures
        forall|i: int| 0 <= i < short_time_text(iso).len() ==> short_time_text(iso)[i] != 'T',
        short_time_text(iso).len() > 0 ==> short_time_text(iso).last() != 'Z',
{
    lemma_strip_end_props(before(replace_char(iso, 'T', ' '), '.'), 'Z');
    crate::text::lemma_index_of_props(replace_char(iso, 'T', ' '), '.');
}

/// `strip_end` keeps a prefix of its argument that does not end in `c`.
pub proof fn lemma_strip_end_props(s: Seq<char>, c: char)
    ensures
        strip_end(s, c).len() <= s.len(),
        strip_end(s, c) == s.take(strip_end(s, c).len() as int),
        strip_end(s, c).len() > 0 ==> strip_end(s, c).last() != c,
    decreases s.len(),
{
    if s.len() > 0 && s.last() == c {
        lemma_strip_end_props(s.drop_last(), c);
        assert(s.drop_last().take(strip_end(s, c).len() as int) =~= s.take(
            strip_end(s, c).len() as int,
        ));
    } else {
        assert(s.take(s.len() as int) =~= s);
    }
}

} // verus!
