//! What a pull of the configuration repository touches.
//!
//! The repository keeps one file per channel, `channels/<name>.toml`. The
//! list of files that differ between two commits, one per line, tells which
//! channels have new configuration.

use vstd::prelude::*;
use crate::report::{run_end, scan, CharClass};
use crate::text::{
    chars_of, has_prefix, has_suffix, slice_of, string_of, strip_back, strip_front, trim_back,
    trim_front,
};

verus! {

/// The directory of the channel files, with its slash.
pub const DIRECTORY: &'static str = "channels/";

/// The ending of a channel file.
pub const ENDING: &'static str = ".toml";

/// The channel that the file `file` configures, if it is a channel file:
/// a `#` and the file's name without directory and ending.
pub open spec fn channel_of(file: Seq<char>) -> Option<Seq<char>> {
    if DIRECTORY@.is_prefix_of(file) && ENDING@.is_suffix_of(file) {
        Some(seq!['#'] + strip_back(strip_front(file, DIRECTORY@), ENDING@))
    } else {
        None
    }
}

/// The channels that the first `n` files of `files` configure, in order.
pub open spec fn channels_of(files: Seq<String>, n: int) -> Seq<Seq<char>>
    decreases n,
{
    if n <= 0 || n > files.len() {
        Seq::empty()
    } else {
        match channel_of(files[n - 1]@) {
            Some(channel) => channels_of(files, n - 1).push(channel),
            None => channels_of(files, n - 1),
        }
    }
}

/// The channels whose configuration changed, given the files that changed.
pub fn pull(files: &Vec<String>) -> (changed: Vec<String>)
    ensures
        crate::names::texts(changed@) == channels_of(files@, files@.len() as int),
{
    let directory = chars_of(DIRECTORY);
    let ending = chars_of(ENDING);
    let mut changed: Vec<String> = Vec::new();
    let mut i: usize = 0;
    assert(crate::names::texts(changed@) =~= channels_of(files@, 0));
    while i < files.len()
        invariant
            i <= files.len(),
            directory@ == DIRECTORY@,
            ending@ == ENDING@,
            crate::names::texts(changed@) == channels_of(files@, i as int),
        decreases files.len() - i,
    {
        let file = chars_of(files[i].as_str());
        if has_prefix(&file, &directory) && has_suffix(&file, &ending) {
            let name = trim_back(&trim_front(&file, &directory), &ending);
            let mut channel = String::new();
            crate::text::push_char(&mut channel, '#');
            crate::text::push_chars(&mut channel, &name);
            let ghost before = changed@;
            changed.push(channel);
            assert(channel@ =~= seq!['#'] + name@);
            assert(crate::names::texts(changed@) =~= crate::names::texts(before).push(channel@));
        }
        i += 1;
    }
    changed
}

/// Where the text `s` without its trailing blanks ends, looking no further
/// back than `from`.
pub open spec fn trimmed_end(s: Seq<char>, from: int, end: int) -> int
    decreases end - from,
{
    if from < end <= s.len() && CharClass::Blank.has(s[end - 1]) {
        trimmed_end(s, from, end - 1)
    } else {
        end
    }
}

/// The text `s` without leading and trailing blanks.
pub open spec fn trimmed(s: Seq<char>) -> Seq<char> {
    let start = run_end(s, 0, CharClass::Blank);
    s.subrange(start, trimmed_end(s, start, s.len() as int))
}

/// Where the line that starts at `from` ends: at the next line feed, or at
/// the end of the text.
pub open spec fn line_end(s: Seq<char>, from: int) -> int
    decreases s.len() - from,
{
    if 0 <= from < s.len() && s[from] != '\n' {
        line_end(s, from + 1)
    } else {
        from
    }
}

/// The lines of the text `s` from index `from` on: the pieces between its
/// line feeds. A text without line feed is one line, also where it is
/// empty.
pub open spec fn lines_from(s: Seq<char>, from: int) -> Seq<Seq<char>>
    decreases s.len() - from,
{
    let end = line_end(s, from);
    if from < 0 || end >= s.len() {
        seq![s.subrange(from, s.len() as int)]
    } else {
        proof {
            if from <= s.len() {
                lemma_line_end_bounds(s, from);
            }
        }
        seq![s.subrange(from, end)] + lines_from(s, end + 1)
    }
}

/// A line that starts inside the text ends inside the text.
pub proof fn lemma_line_end_bounds(s: Seq<char>, from: int)
    requires
        0 <= from <= s.len(),
    ensures
        from <= line_end(s, from) <= s.len(),
    decreases s.len() - from,
{
    if from < s.len() && s[from] != '\n' {
        lemma_line_end_bounds(s, from + 1);
    }
}

/// The files that a listing names: the listing without the blanks around
/// it, cut at its line feeds.
pub fn changes(listing: &str) -> (files: Vec<String>)
    ensures
        crate::names::texts(files@) == lines_from(trimmed(listing@), 0),
{
    let raw = chars_of(listing);
    let start = scan(&raw, 0, CharClass::Blank);
    let mut end: usize = raw.len();
    while start < end && CharClass::Blank.holds(raw[end - 1])
        invariant
            start <= end <= raw.len(),
            trimmed_end(raw@, start as int, raw@.len() as int) == trimmed_end(
                raw@,
                start as int,
                end as int,
            ),
        decreases end - start,
    {
        end -= 1;
    }
    let text = slice_of(&raw, start, end);
    assert(text@ == trimmed(listing@));
    let mut files: Vec<String> = Vec::new();
    let mut from: usize = 0;
    loop
        invariant_except_break
            crate::names::texts(files@) + lines_from(text@, from as int) == lines_from(text@, 0),
        invariant
            from <= text.len(),
        ensures
            crate::names::texts(files@) == lines_from(text@, 0),
        decreases text.len() - from,
    {
        let mut stop: usize = from;
        while stop < text.len() && text[stop] != '\n'
            invariant
                from <= stop <= text.len(),
                line_end(text@, from as int) == line_end(text@, stop as int),
            decreases text.len() - stop,
        {
            stop += 1;
        }
        let ghost before = files@;
        let line = string_of(&slice_of(&text, from, stop));
        files.push(line);
        assert(crate::names::texts(files@) =~= crate::names::texts(before).push(line@));
        if stop >= text.len() {
            assert(text@.subrange(from as int, stop as int) == text@.subrange(
                from as int,
                text@.len() as int,
            ));
            assert(crate::names::texts(before) + seq![line@] =~= crate::names::texts(files@));
            break ;
        }
        assert(crate::names::texts(before) + (seq![line@] + lines_from(text@, stop + 1))
            =~= crate::names::texts(files@) + lines_from(text@, stop + 1));
        from = stop + 1;
    }
    files
}

} // verus!
