//! Scripts of statements: text in which `;` ends a statement.

use vstd::prelude::*;
use vstd::string::{StrSliceExecFns, StringExecFns};

verus! {

/// The character that ends a statement.
pub const SEPARATOR: char = ';';

/// Blanks are dropped from both ends of a statement.
pub open spec fn is_blank(c: char) -> bool {
    c == ' ' || c == '\t' || c == '\n' || c == '\r'
}

/// `text` without the blanks at its start.
pub open spec fn trim_start(text: Seq<char>) -> Seq<char>
    decreases text.len(),
{
    if text.len() > 0 && is_blank(text[0]) {
        trim_start(text.drop_first())
    } else {
        text
    }
}

/// `text` without the blanks at its end.
pub open spec fn trim_end(text: Seq<char>) -> Seq<char>
    decreases text.len(),
{
    if text.len() > 0 && is_blank(text.last()) {
        trim_end(text.drop_last())
    } else {
        text
    }
}

/// `text` without the blanks at its start and at its end.
pub open spec fn trimmed(text: Seq<char>) -> Seq<char> {
    trim_end(trim_start(text))
}

/// Where `mark` stands first in `text`; the length of `text` where it holds
/// none.
pub open spec fn first_index_of(text: Seq<char>, mark: char) -> int
    decreases text.len(),
{
    if text.len() == 0 || text[0] == mark {
        0
    } else {
        1 + first_index_of(text.drop_first(), mark)
    }
}

/// The statements of a script: what stands before the first separator,
/// without the blanks around it and unless nothing is left of it; then the
/// statements of what follows that separator.
pub open spec fn statements(script: Seq<char>) -> Seq<Seq<char>>
    decreases script.len(),
{
    let cut = first_index_of(script, SEPARATOR);
    let head = trimmed(script.take(cut));
    let kept = if head.len() > 0 {
        seq![head]
    } else {
        Seq::empty()
    };
    if 0 <= cut < script.len() {
        kept + statements(script.skip(cut + 1))
    } else {
        kept
    }
}

/// The texts that a list of strings holds.
pub open spec fn texts(list: Seq<String>) -> Seq<Seq<char>> {
    Seq::new(list.len(), |i: int| list[i]@)
}

/// Whether `c` is a blank.
pub fn blank(c: char) -> (answer: bool)
    ensures
        answer == is_blank(c),
{
    c == ' ' || c == '\t' || c == '\n' || c == '\r'
}

/// A mark stands first where it stands with none before it.
pub proof fn lemma_first_index_of(text: Seq<char>, mark: char, at: int)
    requires
        0 <= at <= text.len(),
        forall|k: int| 0 <= k < at ==> text[k] != mark,
        at < text.len() ==> text[at] == mark,
    ensures
        first_index_of(text, mark) == at,
    decreases at,
{
    if at > 0 {
        let rest = text.drop_first();
        assert forall|k: int| 0 <= k < at - 1 implies rest[k] != mark by {
            assert(rest[k] == text[k + 1]);
        }
        lemma_first_index_of(rest, mark, at - 1);
    }
}

/// Trimming the start drops exactly the blanks before the first character
/// that is none.
pub proof fn lemma_trim_start(text: Seq<char>, from: int)
    requires
        0 <= from <= text.len(),
        forall|k: int| 0 <= k < from ==> is_blank(text[k]),
        from < text.len() ==> !is_blank(text[from]),
    ensures
        trim_start(text) == text.skip(from),
    decreases from,
{
    if from > 0 {
        let rest = text.drop_first();
        assert forall|k: int| 0 <= k < from - 1 implies is_blank(rest[k]) by {
            assert(rest[k] == text[k + 1]);
        }
        lemma_trim_start(rest, from - 1);
        assert(rest.skip(from - 1) =~= text.skip(from));
    } else {
        assert(text.skip(0) =~= text);
    }
}

/// Trimming the end drops exactly the blanks after the last character that
/// is none.
pub proof fn lemma_trim_end(text: Seq<char>, to: int)
    requires
        0 <= to <= text.len(),
        forall|k: int| to <= k < text.len() ==> is_blank(text[k]),
        to > 0 ==> !is_blank(text[to - 1]),
    ensures
        trim_end(text) == text.take(to),
    decreases text.len() - to,
{
    if to < text.len() {
        let rest = text.drop_last();
        lemma_trim_end(rest, to);
        assert(rest.take(to) =~= text.take(to));
    } else {
        assert(text.take(to) =~= text);
    }
}

/// What is left of a text that holds a character other than a blank: the
/// part from the first such character to the last.
pub proof fn lemma_trimmed_solid(text: Seq<char>, from: int, to: int)
    requires
        0 <= from < to <= text.len(),
        forall|k: int| 0 <= k < from ==> is_blank(text[k]),
        forall|k: int| to <= k < text.len() ==> is_blank(text[k]),
        !is_blank(text[from]),
        !is_blank(text[to - 1]),
    ensures
        trimmed(text) == text.subrange(from, to),
        trimmed(text).len() > 0,
{
    lemma_trim_start(text, from);
    let tail = text.skip(from);
    assert forall|k: int| to - from <= k < tail.len() implies is_blank(tail[k]) by {
        assert(tail[k] == text[k + from]);
    }
    assert(tail[to - from - 1] == text[to - 1]);
    lemma_trim_end(tail, to - from);
    assert(tail.take(to - from) =~= text.subrange(from, to));
}

/// Nothing is left of a text that holds blanks only.
pub proof fn lemma_trimmed_blank(text: Seq<char>)
    requires
        forall|k: int| 0 <= k < text.len() ==> is_blank(text[k]),
    ensures
        trimmed(text).len() == 0,
{
    lemma_trim_start(text, text.len() as int);
    assert(text.skip(text.len() as int) =~= Seq::<char>::empty());
}

/// Cuts a script into its statements: the parts between separators, each
/// without the blanks around it, and without the parts of which nothing is
/// left.
pub fn split_statements(script: &str) -> (list: Vec<String>)
    ensures
        texts(list@) == statements(script@),
{
    let n = script.unicode_len();
    let mut list: Vec<String> = Vec::new();
    let mut start: usize = 0;
    let mut solid: bool = false;
    let mut first: usize = 0;
    let mut last: usize = 0;
    let mut i: usize = 0;
    proof {
        assert(script@.skip(0) =~= script@);
        assert(texts(list@) =~= Seq::<Seq<char>>::empty());
    }
    for c in it: script.chars()
        invariant
            n == script@.len(),
            it.seq() == script@,
            i == it.index(),
            start <= i <= n,
            forall|k: int| start <= k < i ==> script@[k] != SEPARATOR,
            texts(list@) + statements(script@.skip(start as int)) == statements(script@),
            !solid ==> forall|k: int| start <= k < i ==> is_blank(script@[k]),
            solid ==> {
                &&& start <= first < last <= i
                &&& !is_blank(script@[first as int])
                &&& !is_blank(script@[last - 1])
                &&& forall|k: int| start <= k < first ==> is_blank(script@[k])
                &&& forall|k: int| last <= k < i ==> is_blank(script@[k])
            },
    {
        assert(c == script@[i as int]);
        if c == SEPARATOR {
            let ghost rest = script@.skip(start as int);
            let ghost before = texts(list@);
            proof {
                lemma_piece(script@, start as int, i as int, solid, first as int, last as int);
            }
            if solid {
                list.push(String::from_str(script.substring_char(first, last)));
                assert(texts(list@) =~= before + seq![script@.subrange(first as int, last as int)]);
            }
            proof {
                assert(rest.skip(i - start + 1) =~= script@.skip(i + 1));
                assert(texts(list@) + statements(script@.skip(i + 1)) =~= before + statements(rest));
            }
            start = i + 1;
            solid = false;
        } else if !blank(c) {
            if !solid {
                first = i;
                solid = true;
            }
            last = i + 1;
        }
        i += 1;
    }
    let ghost before = texts(list@);
    proof {
        lemma_piece(script@, start as int, i as int, solid, first as int, last as int);
    }
    if solid {
        list.push(String::from_str(script.substring_char(first, last)));
        assert(texts(list@) =~= before + seq![script@.subrange(first as int, last as int)]);
    }
    assert(texts(list@) =~= before + statements(script@.skip(start as int)));
    list
}

/// What the part of a script from `start` to the separator at `end`, or to
/// the end of the script, adds to its statements.
proof fn lemma_piece(script: Seq<char>, start: int, end: int, solid: bool, first: int, last: int)
    requires
        0 <= start <= end <= script.len(),
        forall|k: int| start <= k < end ==> script[k] != SEPARATOR,
        end < script.len() ==> script[end] == SEPARATOR,
        !solid ==> forall|k: int| start <= k < end ==> is_blank(script[k]),
        solid ==> {
            &&& start <= first < last <= end
            &&& !is_blank(script[first])
            &&& !is_blank(script[last - 1])
            &&& forall|k: int| start <= k < first ==> is_blank(script[k])
            &&& forall|k: int| last <= k < end ==> is_blank(script[k])
        },
    ensures
        first_index_of(script.skip(start), SEPARATOR) == end - start,
        solid ==> trimmed(script.skip(start).take(end - start)) == script.subrange(first, last)
            && script.subrange(first, last).len() > 0,
        !solid ==> trimmed(script.skip(start).take(end - start)).len() == 0,
        ({
            let kept = if solid {
                seq![script.subrange(first, last)]
            } else {
                Seq::<Seq<char>>::empty()
            };
            statements(script.skip(start)) == if end < script.len() {
                kept + statements(script.skip(start).skip(end - start + 1))
            } else {
                kept
            }
        }),
{
    let rest = script.skip(start);
    let piece = rest.take(end - start);
    assert forall|k: int| 0 <= k < end - start implies rest[k] != SEPARATOR by {
        assert(rest[k] == script[k + start]);
    }
    lemma_first_index_of(rest, SEPARATOR, end - start);
    if solid {
        assert forall|k: int| 0 <= k < first - start implies is_blank(piece[k]) by {
            assert(piece[k] == script[k + start]);
        }
        assert forall|k: int| last - start <= k < piece.len() implies is_blank(piece[k]) by {
            assert(piece[k] == script[k + start]);
        }
        assert(piece[first - start] == script[first]);
        assert(piece[last - start - 1] == script[last - 1]);
        lemma_trimmed_solid(piece, first - start, last - start);
        assert(piece.subrange(first - start, last - start) =~= script.subrange(first, last));
    } else {
        assert forall|k: int| 0 <= k < piece.len() implies is_blank(piece[k]) by {
            assert(piece[k] == script[k + start]);
        }
        lemma_trimmed_blank(piece);
    }
}

} // verus!
