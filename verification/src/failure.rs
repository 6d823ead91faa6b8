//! What of a failed command's output is told in a notice.

use vstd::prelude::*;
use vstd::string::*;
use crate::seqs::{filter_comes_from, filter_holds, filter_none, filter_step};
use crate::text::{
    chars_of, join, joined, lines, lines_of, starts_with, text_of, text_starts_with, texts,
    texts_empty, texts_push, trim, trim_end, trimmed, trimmed_end,
};

verus! {

/// The most lines of output that a notice tells.
pub const GIST_LINES: usize = 3;

/// The most characters of output that a notice tells.
pub const GIST_CHARS: usize = 240;

pub open spec fn blank(line: Seq<char>) -> bool {
    trim(line).len() == 0
}

pub open spec fn hint(line: Seq<char>) -> bool {
    starts_with(line, "hint:"@)
}

/// The lines of an output without trailing white space.
pub open spec fn bare_lines(output: Seq<char>) -> Seq<Seq<char>> {
    lines(output).map_values(|line: Seq<char>| trim_end(line))
}

/// The lines of an output that hold something.
pub open spec fn full_lines(output: Seq<char>) -> Seq<Seq<char>> {
    bare_lines(output).filter(|line: Seq<char>| !blank(line))
}

/// The lines of an output that a notice may tell: those that are no hints.
pub open spec fn telling_lines(output: Seq<char>) -> Seq<Seq<char>> {
    full_lines(output).filter(|line: Seq<char>| !hint(line))
}

/// The lines of an output that a notice tells.
pub open spec fn told_lines(output: Seq<char>) -> Seq<Seq<char>> {
    let telling = telling_lines(output);
    if telling.len() <= GIST_LINES {
        telling
    } else {
        telling.take(GIST_LINES as int)
    }
}

/// A text cut to `limit` characters, with an ellipsis where something was cut.
pub open spec fn clipped(s: Seq<char>, limit: int) -> Seq<char> {
    if s.len() <= limit {
        s
    } else {
        s.take(limit).push('…')
    }
}

/// What a notice tells of an output.
pub open spec fn gist(output: Seq<char>) -> Seq<char> {
    clipped(join(told_lines(output), "\n"@), GIST_CHARS as int)
}

/// Whether a notice leaves something of an output untold.
pub open spec fn gist_leaves_out(output: Seq<char>) -> bool {
    ||| told_lines(output).len() < full_lines(output).len()
    ||| join(told_lines(output), "\n"@).len() > GIST_CHARS
}

fn full_lines_of(output: &str) -> (r: Vec<String>)
    ensures
        texts(r@) == full_lines(output@),
{
    let all = lines_of(output);
    let ghost bare = bare_lines(output@);
    let ghost keep = |line: Seq<char>| !blank(line);
    let mut kept: Vec<String> = Vec::new();
    let mut i: usize = 0;
    proof {
        texts_empty();
        filter_none(bare, keep);
    }
    while i < all.len()
        invariant
            i <= all@.len(),
            texts(all@) == lines(output@),
            bare == bare_lines(output@),
            keep == (|line: Seq<char>| !blank(line)),
            texts(kept@) == bare.take(i as int).filter(keep),
        decreases all@.len() - i,
    {
        let line = trimmed_end(all[i].as_str());
        proof {
            assert(texts(all@)[i as int] == all@[i as int]@);
            assert(bare[i as int] == line@);
            filter_step(bare, i as int, keep);
            texts_push(kept@, line);
        }
        if !trimmed(line.as_str()).as_str().is_empty() {
            kept.push(line);
        }
        i = i + 1;
    }
    assert(texts(all@).len() == all@.len());
    assert(bare.take(bare.len() as int) =~= bare);
    kept
}

fn telling_lines_of(full: &Vec<String>) -> (r: Vec<String>)
    ensures
        texts(r@) == texts(full@).filter(|line: Seq<char>| !hint(line)),
{
    let ghost all = texts(full@);
    let ghost keep = |line: Seq<char>| !hint(line);
    let mut kept: Vec<String> = Vec::new();
    let mut i: usize = 0;
    proof {
        texts_empty();
        filter_none(all, keep);
    }
    while i < full.len()
        invariant
            i <= full@.len(),
            all == texts(full@),
            keep == (|line: Seq<char>| !hint(line)),
            texts(kept@) == all.take(i as int).filter(keep),
        decreases full@.len() - i,
    {
        let line = full[i].clone();
        proof {
            assert(all[i as int] == line@);
            filter_step(all, i as int, keep);
            texts_push(kept@, line);
        }
        if !text_starts_with(line.as_str(), "hint:") {
            kept.push(line);
        }
        i = i + 1;
    }
    assert(all.take(all.len() as int) =~= all);
    kept
}

/// The gist of a failed command's output: its first lines that are neither blank nor hints, and
/// whether anything of the output is left out.
pub fn failure_gist(output: &str) -> (r: (String, bool))
    ensures
        r.0@ == gist(output@),
        r.1 == gist_leaves_out(output@),
{
    let full = full_lines_of(output);
    let mut kept = telling_lines_of(&full);
    let ghost telling = texts(kept@);
    if kept.len() > GIST_LINES {
        kept.truncate(GIST_LINES);
        assert(texts(kept@) =~= telling.take(GIST_LINES as int));
    }
    let mut left_out: bool = kept.len() < full.len();
    proof {
        assert(texts(kept@).len() == kept@.len());
        assert(texts(full@).len() == full@.len());
    }
    let mut told = joined(&kept, "\n");
    let chars = chars_of(told.as_str());
    if chars.len() > GIST_CHARS {
        let mut cut = text_of(&chars, 0, GIST_CHARS);
        assert(chars@.subrange(0, GIST_CHARS as int) =~= chars@.take(GIST_CHARS as int));
        cut.push('…');
        told = cut;
        left_out = true;
    }
    (told, left_out)
}

/// A gist is never longer than its limit and the ellipsis, tells no more lines than its limit, and
/// tells neither blank lines nor hints.
pub proof fn gist_is_short_and_has_no_hints(output: Seq<char>)
    ensures
        gist(output).len() <= GIST_CHARS + 1,
        told_lines(output).len() <= GIST_LINES,
        forall|i: int|
            0 <= i < told_lines(output).len() ==> !hint(#[trigger] told_lines(output)[i]) && !blank(
                told_lines(output)[i],
            ),
{
    let full = full_lines(output);
    let telling = telling_lines(output);
    filter_holds(full, |line: Seq<char>| !hint(line));
    filter_holds(bare_lines(output), |line: Seq<char>| !blank(line));
    assert forall|i: int| 0 <= i < told_lines(output).len() implies !hint(
        #[trigger] told_lines(output)[i],
    ) && !blank(told_lines(output)[i]) by {
        let line = told_lines(output)[i];
        assert(line == telling[i]);
        let no_hint = |line: Seq<char>| !hint(line);
        assert(no_hint(telling[i]));
        filter_comes_from(full, no_hint, i);
        let k = choose|k: int| 0 <= k < full.len() && #[trigger] full[k] == telling[i];
        let not_blank = |line: Seq<char>| !blank(line);
        assert(not_blank(full[k]));
    }
}

/// An output whose full lines are few, short and no hints is told whole.
pub proof fn short_output_is_told_whole(output: Seq<char>)
    requires
        telling_lines(output) == full_lines(output),
        full_lines(output).len() <= GIST_LINES,
        join(full_lines(output), "\n"@).len() <= GIST_CHARS,
    ensures
        gist(output) == join(full_lines(output), "\n"@),
        !gist_leaves_out(output),
{
}

/// The text of a failure notice: the headline, and below it the gist where there is one.
pub fn failure_text(headline: &str, told: &str) -> (r: String)
    ensures
        r@ == if told@.len() == 0 { headline@ } else { headline@ + "\n"@ + told@ },
{
    let mut out = headline.to_owned();
    if !told.is_empty() {
        out.append("\n");
        out.append(told);
    }
    out
}

/// A text that is too long is cut after as many characters as the limit says, and ends in an ellipsis;
/// any other stays as it is.
pub proof fn long_texts_are_cut(s: Seq<char>, limit: int)
    requires
        0 <= limit,
    ensures
        s.len() <= limit ==> clipped(s, limit) == s,
        s.len() > limit ==> clipped(s, limit).len() == limit + 1 && clipped(s, limit).last() == '…' && clipped(
            s,
            limit,
        ).drop_last() == s.take(limit),
{
    if s.len() > limit {
        assert(clipped(s, limit).drop_last() =~= s.take(limit));
    }
}

/// A line holds something exactly if it is not all white space: each line of an output that does is one
/// of the full lines, and no other.
pub proof fn full_lines_are_those_that_hold_something(output: Seq<char>, line: Seq<char>)
    ensures
        full_lines(output).contains(line) <==> trim(line).len() > 0 && exists|k: int|
            0 <= k < lines(output).len() && trim_end(#[trigger] lines(output)[k]) == line,
        telling_lines(output).contains(line) <==> full_lines(output).contains(line) && !starts_with(line, "hint:"@),
{
    let bare = bare_lines(output);
    let keep = |line: Seq<char>| !blank(line);
    let full = full_lines(output);
    filter_holds(bare, keep);
    if full.contains(line) {
        let i = choose|i: int| 0 <= i < full.len() && full[i] == line;
        filter_comes_from(bare, keep, i);
        assert(keep(full[i]));
        let k = choose|k: int| 0 <= k < bare.len() && #[trigger] bare[k] == full[i];
        assert(trim_end(lines(output)[k]) == line);
    }
    if trim(line).len() > 0 && exists|k: int|
        0 <= k < lines(output).len() && trim_end(#[trigger] lines(output)[k]) == line {
        let k = choose|k: int| 0 <= k < lines(output).len() && trim_end(#[trigger] lines(output)[k]) == line;
        assert(bare[k] == line);
        crate::seqs::filter_keeps(bare, keep, k);
    }
    let tells = |line: Seq<char>| !hint(line);
    let telling = telling_lines(output);
    filter_holds(full, tells);
    if telling.contains(line) {
        let i = choose|i: int| 0 <= i < telling.len() && telling[i] == line;
        filter_comes_from(full, tells, i);
        assert(tells(telling[i]));
    }
    if full.contains(line) && !hint(line) {
        let k = choose|k: int| 0 <= k < full.len() && full[k] == line;
        crate::seqs::filter_keeps(full, tells, k);
    }
}

/// A notice tells the first lines, in their order, as many as its limit; it leaves something out
/// exactly if there are more lines that hold something, or the text is cut. Where it leaves nothing out
/// it tells every line that holds something.
pub proof fn a_notice_tells_the_first_lines(output: Seq<char>)
    ensures
        told_lines(output).is_prefix_of(telling_lines(output)),
        told_lines(output).len() < telling_lines(output).len() ==> told_lines(output).len() == GIST_LINES,
        !gist_leaves_out(output) ==> gist(output) == join(full_lines(output), "\n"@),
        gist_leaves_out(output) ==> telling_lines(output).len() < full_lines(output).len()
            || told_lines(output).len() < telling_lines(output).len() || gist(output).len() == GIST_CHARS + 1,
{
    let full = full_lines(output);
    let tells = |line: Seq<char>| !hint(line);
    filter_holds(full, tells);
    if !gist_leaves_out(output) {
        assert(telling_lines(output).len() == full.len());
        nothing_was_filtered(full, tells);
    }
}

proof fn nothing_was_filtered(s: Seq<Seq<char>>, keep: spec_fn(Seq<char>) -> bool)
    requires
        s.filter(keep).len() == s.len(),
    ensures
        s.filter(keep) == s,
    decreases s.len(),
{
    reveal(Seq::filter);
    if s.len() > 0 {
        let rest = s.drop_last();
        filter_holds(rest, keep);
        nothing_was_filtered(rest, keep);
        assert(rest.push(s.last()) =~= s);
    } else {
        assert(s.filter(keep) =~= s);
    }
}

} // verus!
