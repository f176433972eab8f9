//! Line-oriented text handling: joining source lines into one file body,
//! splitting a transcript back into lines, and substring search.
//!
//! Strings are modelled by their view, a `Seq<char>`; a list of lines by a
//! `Seq<Seq<char>>`.

use vstd::prelude::*;
use vstd::string::*;

verus! {

/// The line terminator used throughout: a single line-feed character.
pub open spec fn newline() -> char {
    '\n'
}

/// The lines joined with one terminator between each neighbouring pair, and
/// none after the last line. No lines at all give the empty text.
pub open spec fn join_lines_spec(lines: Seq<Seq<char>>) -> Seq<char>
    decreases lines.len(),
{
    if lines.len() == 0 {
        Seq::empty()
    } else if lines.len() == 1 {
        lines[0]
    } else {
        join_lines_spec(lines.drop_last()).push(newline()) + lines.last()
    }
}

/// The pieces of `text` between its terminators. A text with `n` terminators
/// has `n + 1` pieces; the empty text has the single empty piece.
pub open spec fn split_lines_spec(text: Seq<char>) -> Seq<Seq<char>>
    decreases text.len(),
{
    if text.len() == 0 {
        seq![Seq::empty()]
    } else {
        let before = split_lines_spec(text.drop_last());
        if text.last() == newline() {
            before.push(Seq::empty())
        } else {
            before.drop_last().push(before.last().push(text.last()))
        }
    }
}

/// All the lines in order, one after the other, with nothing in between.
pub open spec fn concat_spec(lines: Seq<Seq<char>>) -> Seq<char>
    decreases lines.len(),
{
    if lines.len() == 0 {
        Seq::empty()
    } else {
        concat_spec(lines.drop_last()) + lines.last()
    }
}

/// `needle` occurs in `hay` starting at position `at`.
pub open spec fn occurs_at(hay: Seq<char>, needle: Seq<char>, at: int) -> bool {
    &&& 0 <= at
    &&& at + needle.len() <= hay.len()
    &&& hay.subrange(at, at + needle.len()) == needle
}

/// `needle` occurs somewhere in `hay`. The empty needle occurs in every text.
pub open spec fn contains_spec(hay: Seq<char>, needle: Seq<char>) -> bool {
    exists|at: int| occurs_at(hay, needle, at)
}

/// The line without one terminator at its end, if it has one.
pub open spec fn strip_terminator(line: Seq<char>) -> Seq<char> {
    if line.len() > 0 && line.last() == newline() {
        line.drop_last()
    } else {
        line
    }
}

/// No terminator stands in `line`.
pub open spec fn is_single_line(line: Seq<char>) -> bool {
    forall|i: int| 0 <= i < line.len() ==> line[i] != newline()
}

/// Splitting always yields at least one piece.
pub proof fn lemma_split_nonempty(text: Seq<char>)
    ensures
        split_lines_spec(text).len() >= 1,
    decreases text.len(),
{
    if text.len() > 0 {
        lemma_split_nonempty(text.drop_last());
    }
}

/// Appending a character to the last of the joined lines appends it to the
/// joined text.
proof fn lemma_join_extend_last(init: Seq<Seq<char>>, line: Seq<char>, c: char)
    ensures
        join_lines_spec(init.push(line.push(c))) == join_lines_spec(init.push(line)).push(c),
{
    let longer = init.push(line.push(c));
    let shorter = init.push(line);
    assert(longer.drop_last() =~= init);
    assert(shorter.drop_last() =~= init);
    if init.len() == 0 {
    } else {
        assert(join_lines_spec(init).push(newline()) + line.push(c) =~= (join_lines_spec(
            init,
        ).push(newline()) + line).push(c));
    }
}

/// Joining the pieces of a text gives the text back, for every text.
pub proof fn lemma_join_split(text: Seq<char>)
    ensures
        join_lines_spec(split_lines_spec(text)) == text,
    decreases text.len(),
{
    if text.len() == 0 {
        assert(join_lines_spec(seq![Seq::<char>::empty()]) =~= text);
    } else {
        let shorter = text.drop_last();
        let before = split_lines_spec(shorter);
        lemma_split_nonempty(shorter);
        lemma_join_split(shorter);
        if text.last() == newline() {
            let pieces = before.push(Seq::<char>::empty());
            assert(pieces.drop_last() =~= before);
            assert(join_lines_spec(before).push(newline()) + Seq::<char>::empty() =~= text);
        } else {
            assert(before =~= before.drop_last().push(before.last()));
            lemma_join_extend_last(before.drop_last(), before.last(), text.last());
            assert(shorter.push(text.last()) =~= text);
        }
    }
}

/// A text that follows a terminator and holds none of its own is the last
/// piece; the pieces before it are those of what stood before the terminator.
proof fn lemma_split_after_terminator(head: Seq<char>, line: Seq<char>)
    requires
        is_single_line(line),
    ensures
        split_lines_spec(head.push(newline()) + line) == split_lines_spec(head).push(line),
    decreases line.len(),
{
    let text = head.push(newline()) + line;
    if line.len() == 0 {
        assert(line =~= Seq::<char>::empty());
        assert(text =~= head.push(newline()));
        assert(text.drop_last() =~= head);
    } else {
        let shorter = line.drop_last();
        lemma_split_after_terminator(head, shorter);
        assert(text.drop_last() =~= head.push(newline()) + shorter);
        assert(text.last() == line.last());
        let before = split_lines_spec(head).push(shorter);
        assert(before.drop_last() =~= split_lines_spec(head));
        assert(before.last() == shorter);
        assert(shorter.push(line.last()) =~= line);
        assert(split_lines_spec(text.drop_last()) == before);
    }
}

/// A text without a terminator is its own single piece.
pub proof fn lemma_split_single_line(line: Seq<char>)
    requires
        is_single_line(line),
    ensures
        split_lines_spec(line) == seq![line],
    decreases line.len(),
{
    if line.len() == 0 {
        assert(line =~= Seq::<char>::empty());
    } else {
        let shorter = line.drop_last();
        lemma_split_single_line(shorter);
        let before = seq![shorter];
        assert(before.drop_last().push(before.last().push(line.last())) =~= seq![
            shorter.push(line.last()),
        ]);
        assert(shorter.push(line.last()) =~= line);
    }
}

/// Splitting what was joined gives the lines back, provided that there is at
/// least one line and that no line holds a terminator.
pub proof fn lemma_split_join(lines: Seq<Seq<char>>)
    requires
        lines.len() >= 1,
        forall|i: int| 0 <= i < lines.len() ==> is_single_line(#[trigger] lines[i]),
    ensures
        split_lines_spec(join_lines_spec(lines)) == lines,
    decreases lines.len(),
{
    if lines.len() == 1 {
        lemma_split_single_line(lines[0]);
        assert(seq![lines[0]] =~= lines);
    } else {
        let init = lines.drop_last();
        lemma_split_join(init);
        lemma_split_after_terminator(join_lines_spec(init), lines.last());
        assert(init.push(lines.last()) =~= lines);
    }
}

/// No piece of a split text holds a terminator.
pub proof fn lemma_split_pieces_single_line(text: Seq<char>)
    ensures
        forall|i: int|
            0 <= i < split_lines_spec(text).len() ==> is_single_line(
                #[trigger] split_lines_spec(text)[i],
            ),
    decreases text.len(),
{
    if text.len() > 0 {
        lemma_split_pieces_single_line(text.drop_last());
        lemma_split_nonempty(text.drop_last());
    }
}

/// Concatenation distributes over appending one more line.
pub proof fn lemma_concat_push(lines: Seq<Seq<char>>, line: Seq<char>)
    ensures
        concat_spec(lines.push(line)) == concat_spec(lines) + line,
{
    assert(lines.push(line).drop_last() =~= lines);
}

/// The characters of `s`, in order.
pub fn chars_of(s: &str) -> (out: Vec<char>)
    ensures
        out@ == s@,
{
    let mut out: Vec<char> = Vec::new();
    for c in it: s.chars()
        invariant
            out@ == it.seq().take(it.index()),
            it.seq() == s@,
    {
        out.push(c);
    }
    out
}

/// Whether two strings hold the same characters.
pub fn same_text(a: &str, b: &str) -> (same: bool)
    ensures
        same == (a@ == b@),
{
    let x = chars_of(a);
    let y = chars_of(b);
    if x.len() != y.len() {
        return false;
    }
    let mut k: usize = 0;
    while k < x.len()
        invariant
            k <= x.len(),
            x.len() == y.len(),
            x@ == a@,
            y@ == b@,
            forall|j: int| 0 <= j < k ==> x@[j] == y@[j],
        decreases x.len() - k,
    {
        if x[k] != y[k] {
            return false;
        }
        k += 1;
    }
    assert(x@ =~= y@);
    true
}

/// The first position at or after `from` at which `c` stands in `hay`.
pub fn find_char(hay: &Vec<char>, from: usize, c: char) -> (found: Option<usize>)
    ensures
        match found {
            Some(at) => {
                &&& from <= at < hay.len()
                &&& hay[at as int] == c
                &&& forall|j: int| from <= j < at ==> hay[j] != c
            },
            None => forall|j: int| from <= j < hay.len() ==> hay[j] != c,
        },
{
    let mut at: usize = from;
    while at < hay.len()
        invariant
            from <= at,
            forall|j: int| from <= j < at && j < hay.len() ==> hay[j] != c,
        decreases hay.len() - at,
    {
        if hay[at] == c {
            return Some(at);
        }
        at += 1;
    }
    None
}

/// Whether `needle` stands in `hay` at position `at`.
pub fn matches_at(hay: &Vec<char>, needle: &Vec<char>, at: usize) -> (found: bool)
    ensures
        found == occurs_at(hay@, needle@, at as int),
{
    if at > hay.len() || needle.len() > hay.len() - at {
        return false;
    }
    let mut k: usize = 0;
    while k < needle.len()
        invariant
            k <= needle.len(),
            at + needle.len() <= hay.len(),
            forall|j: int| 0 <= j < k ==> hay@[at + j] == needle@[j],
        decreases needle.len() - k,
    {
        if hay[at + k] != needle[k] {
            proof {
                let window = hay@.subrange(at as int, at + needle.len());
                assert(window[k as int] == hay@[at + k]);
            }
            return false;
        }
        k += 1;
    }
    proof {
        assert(hay@.subrange(at as int, at + needle.len()) =~= needle@);
    }
    true
}

/// Substring search: whether `needle` occurs anywhere in `hay`.
pub fn contains(hay: &str, needle: &str) -> (found: bool)
    ensures
        found == contains_spec(hay@, needle@),
{
    let h = chars_of(hay);
    let n = chars_of(needle);
    if n.len() > h.len() {
        return false;
    }
    let last: usize = h.len() - n.len();
    let mut at: usize = 0;
    loop
        invariant
            at <= last,
            last == h.len() - n.len(),
            n.len() <= h.len(),
            h@ == hay@,
            n@ == needle@,
            forall|j: int| 0 <= j < at ==> !occurs_at(hay@, needle@, j),
        decreases last - at,
    {
        if matches_at(&h, &n, at) {
            return true;
        }
        if at == last {
            return false;
        }
        at += 1;
    }
}

/// Joins source lines into one text, with a terminator between neighbours
/// and none at the end.
pub fn join_lines(lines: &Vec<String>) -> (text: String)
    ensures
        text@ == join_lines_spec(lines.deep_view()),
{
    let mut text = String::new();
    let mut i: usize = 0;
    while i < lines.len()
        invariant
            i <= lines.len(),
            text@ == join_lines_spec(lines.deep_view().take(i as int)),
        decreases lines.len() - i,
    {
        proof {
            let upto = lines.deep_view().take(i + 1);
            assert(upto.drop_last() =~= lines.deep_view().take(i as int));
            assert(upto.last() == lines[i as int]@);
        }
        if i > 0 {
            proof {
                reveal_strlit("\n");
                assert("\n"@ =~= seq![newline()]);
            }
            text.append("\n");
            assert(text@ =~= join_lines_spec(lines.deep_view().take(i as int)).push(newline()));
        }
        text.append(lines[i].as_str());
        i += 1;
    }
    proof {
        assert(lines.deep_view().take(lines.len() as int) =~= lines.deep_view());
    }
    text
}

/// Splits a text at every terminator. The pieces hold no terminator, and
/// joining them gives the text back.
pub fn split_lines(text: &str) -> (pieces: Vec<String>)
    ensures
        pieces.deep_view() == split_lines_spec(text@),
{
    let chars = chars_of(text);
    let mut pieces: Vec<String> = Vec::new();
    let mut start: usize = 0;
    let mut i: usize = 0;
    proof {
        assert(text@.take(0) =~= Seq::<char>::empty());
        assert(text@.subrange(0, 0) =~= Seq::<char>::empty());
        assert(pieces.deep_view().push(Seq::<char>::empty()) =~= seq![Seq::<char>::empty()]);
    }
    while i < chars.len()
        invariant
            start <= i <= chars.len(),
            chars@ == text@,
            split_lines_spec(text@.take(i as int)) == pieces.deep_view().push(
                text@.subrange(start as int, i as int),
            ),
        decreases chars.len() - i,
    {
        proof {
            let upto = text@.take(i + 1);
            assert(upto.drop_last() =~= text@.take(i as int));
            assert(upto.last() == text@[i as int]);
            let before = pieces.deep_view().push(text@.subrange(start as int, i as int));
            assert(before.drop_last() =~= pieces.deep_view());
            assert(before.last().push(text@[i as int]) =~= text@.subrange(
                start as int,
                i + 1,
            ));
        }
        if chars[i] == '\n' {
            let ghost done = pieces.deep_view();
            let ghost from = start as int;
            let piece = String::from_str(text.substring_char(start, i));
            pieces.push(piece);
            start = i + 1;
            proof {
                assert(pieces.deep_view() =~= done.push(text@.subrange(from, i as int)));
                assert(text@.subrange(start as int, i + 1) =~= Seq::<char>::empty());
            }
        }
        i += 1;
    }
    let ghost done = pieces.deep_view();
    let piece = String::from_str(text.substring_char(start, i));
    pieces.push(piece);
    proof {
        assert(text@.take(i as int) =~= text@);
        assert(pieces.deep_view() =~= done.push(text@.subrange(start as int, i as int)));
    }
    pieces
}

} // verus!
