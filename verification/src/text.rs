//! Character sequences: moving between strings and character vectors, and
//! the searching and splitting the other modules build on.

use vstd::prelude::*;
use vstd::std_specs::iter::IteratorSpec;

verus! {

/// `String::push` appends the given character to the end of the string.
pub assume_specification[ String::push ](s: &mut String, c: char)
    ensures
        final(s)@ == old(s)@.push(c),
;

/// The characters of `s`, in order.
pub fn to_chars(s: &str) -> (out: Vec<char>)
    ensures
        out@ == s@,
{
    broadcast use vstd::string::group_string_axioms;

    let mut out: Vec<char> = Vec::new();
    let mut rest = s.chars();
    loop
        invariant
            out@ + rest.remaining() == s@,
            rest.obeys_prophetic_iter_laws(),
            rest.decrease() is Some,
        ensures
            out@ == s@,
        decreases rest.decrease()->0,
    {
        let ghost before = rest.remaining();
        match rest.next() {
            Some(c) => {
                out.push(c);
                assert(out@ + rest.remaining() =~= out@.drop_last() + before);
            },
            None => {
                assert(out@ =~= s@);
                break;
            },
        }
    }
    out
}

/// The string made of the characters of `chars`, in order.
pub fn to_string(chars: &[char]) -> (out: String)
    ensures
        out@ == chars@,
{
    let mut out = String::new();
    let mut i: usize = 0;
    while i < chars.len()
        invariant
            i <= chars@.len(),
            out@ == chars@.take(i as int),
        decreases chars@.len() - i,
    {
        out.push(chars[i]);
        i += 1;
        assert(out@ =~= chars@.take(i as int));
    }
    assert(chars@.take(i as int) =~= chars@);
    out
}

/// Whether two strings hold the same characters.
pub fn same_text(a: &str, b: &str) -> (same: bool)
    ensures
        same == (a@ == b@),
{
    let a_chars = to_chars(a);
    let b_chars = to_chars(b);
    if a_chars.len() != b_chars.len() {
        return false;
    }
    let same = matches_at(a_chars.as_slice(), b_chars.as_slice(), 0);
    assert(a@.subrange(0, a@.len() as int) =~= a@);
    same
}

/// Appends the characters of `items` to `out`.
pub fn push_all(out: &mut Vec<char>, items: &[char])
    ensures
        final(out)@ == old(out)@ + items@,
{
    let mut i: usize = 0;
    while i < items.len()
        invariant
            i <= items@.len(),
            out@ == old(out)@ + items@.take(i as int),
        decreases items@.len() - i,
    {
        out.push(items[i]);
        i += 1;
        assert(out@ =~= old(out)@ + items@.take(i as int));
    }
    assert(items@.take(i as int) =~= items@);
}

/// Whether `pattern` stands in `text` at index `at`.
pub open spec fn occurs_at(text: Seq<char>, pattern: Seq<char>, at: int) -> bool {
    &&& 0 <= at
    &&& at + pattern.len() <= text.len()
    &&& text.subrange(at, at + pattern.len()) == pattern
}

/// Tests whether `pattern` stands in `text` at index `at`.
pub fn matches_at(text: &[char], pattern: &[char], at: usize) -> (found: bool)
    ensures
        found == occurs_at(text@, pattern@, at as int),
{
    if at > text.len() || pattern.len() > text.len() - at {
        return false;
    }
    let mut k: usize = 0;
    while k < pattern.len()
        invariant
            k <= pattern@.len(),
            at + pattern@.len() <= text@.len() <= usize::MAX,
            forall|j: int| 0 <= j < k ==> text@[at + j] == pattern@[j],
        decreases pattern@.len() - k,
    {
        if text[at + k] != pattern[k] {
            assert(text@.subrange(at as int, at + pattern@.len())[k as int] == text@[at + k]);
            return false;
        }
        k += 1;
    }
    assert(text@.subrange(at as int, at + pattern@.len()) =~= pattern@);
    true
}

/// `text` with every occurrence of `pattern` replaced by `with`. Occurrences
/// are found from the left and do not overlap; what has been put in is not
/// searched again. An empty pattern replaces nothing.
pub open spec fn replaced(text: Seq<char>, pattern: Seq<char>, with: Seq<char>) -> Seq<char>
    decreases text.len(),
{
    if text.len() == 0 || pattern.len() == 0 {
        text
    } else if occurs_at(text, pattern, 0) {
        with + replaced(text.skip(pattern.len() as int), pattern, with)
    } else {
        seq![text[0]] + replaced(text.skip(1), pattern, with)
    }
}

/// Replaces every occurrence of `pattern` in `text` by `with`.
pub fn replace_all(text: &[char], pattern: &[char], with: &[char]) -> (out: Vec<char>)
    ensures
        out@ == replaced(text@, pattern@, with@),
{
    let mut out: Vec<char> = Vec::new();
    if pattern.len() == 0 {
        push_all(&mut out, text);
        assert(out@ =~= text@);
        return out;
    }
    let mut i: usize = 0;
    assert(text@.skip(0) =~= text@);
    while i < text.len()
        invariant
            i <= text@.len(),
            pattern@.len() > 0,
            replaced(text@, pattern@, with@) == out@ + replaced(
                text@.skip(i as int),
                pattern@,
                with@,
            ),
        decreases text@.len() - i,
    {
        let ghost rest = text@.skip(i as int);
        let ghost done = out@;
        if matches_at(text, pattern, i) {
            assert(rest.subrange(0, pattern@.len() as int) =~= text@.subrange(
                i as int,
                i + pattern@.len(),
            ));
            assert(rest.skip(pattern@.len() as int) =~= text@.skip(i + pattern@.len()));
            push_all(&mut out, with);
            i += pattern.len();
            assert(done + (with@ + replaced(text@.skip(i as int), pattern@, with@)) =~= out@
                + replaced(text@.skip(i as int), pattern@, with@));
        } else {
            assert(occurs_at(rest, pattern@, 0) ==> rest.subrange(0, pattern@.len() as int)
                =~= text@.subrange(i as int, i + pattern@.len()));
            assert(rest.skip(1) =~= text@.skip(i + 1));
            out.push(text[i]);
            i += 1;
            assert(done + (seq![rest[0]] + replaced(text@.skip(i as int), pattern@, with@))
                =~= out@ + replaced(text@.skip(i as int), pattern@, with@));
        }
    }
    assert(out@ + Seq::<char>::empty() =~= out@);
    out
}

/// The characters of `text` from index `from` up to, not including, `to`.
pub fn slice_string(text: &[char], from: usize, to: usize) -> (out: String)
    requires
        from <= to <= text@.len(),
    ensures
        out@ == text@.subrange(from as int, to as int),
{
    let mut out = String::new();
    let mut i: usize = from;
    while i < to
        invariant
            from <= i <= to <= text@.len(),
            out@ == text@.subrange(from as int, i as int),
        decreases to - i,
    {
        out.push(text[i]);
        i += 1;
        assert(out@ =~= text@.subrange(from as int, i as int));
    }
    out
}

/// The length of the first line of `text`, with the line feed that ends it;
/// a last line that no line feed ends runs to the end of the text.
pub open spec fn first_line_len(text: Seq<char>) -> int
    decreases text.len(),
{
    if text.len() == 0 {
        0
    } else if text[0] == '\n' {
        1
    } else {
        1 + first_line_len(text.skip(1))
    }
}

/// The first line lies within the text, and is not empty unless the text is.
pub proof fn lemma_first_line_bounds(text: Seq<char>)
    ensures
        0 <= first_line_len(text) <= text.len(),
        text.len() > 0 ==> first_line_len(text) >= 1,
    decreases text.len(),
{
    if text.len() > 0 && text[0] != '\n' {
        lemma_first_line_bounds(text.skip(1));
    }
}

/// The lines of `text`, each with the line feed that ends it.
pub open spec fn lines_with_endings(text: Seq<char>) -> Seq<Seq<char>>
    decreases text.len(),
{
    if text.len() == 0 {
        Seq::empty()
    } else {
        proof {
            lemma_first_line_bounds(text);
        }
        seq![text.take(first_line_len(text))] + lines_with_endings(
            text.skip(first_line_len(text)),
        )
    }
}

/// The views of a sequence of strings.
pub open spec fn views(lines: Seq<String>) -> Seq<Seq<char>> {
    lines.map_values(|line: String| line@)
}

/// The index just behind the line that starts at `start`.
pub fn line_end(text: &[char], start: usize) -> (end: usize)
    requires
        start <= text@.len(),
    ensures
        end == start + first_line_len(text@.skip(start as int)),
        start <= end <= text@.len(),
{
    proof {
        lemma_first_line_bounds(text@.skip(start as int));
    }
    let mut i: usize = start;
    while i < text.len()
        invariant
            start <= i <= text@.len(),
            first_line_len(text@.skip(start as int)) == (i - start) + first_line_len(
                text@.skip(i as int),
            ),
        decreases text@.len() - i,
    {
        assert(text@.skip(i as int).skip(1) =~= text@.skip(i + 1));
        if text[i] == '\n' {
            return i + 1;
        }
        i += 1;
    }
    i
}

/// Splits `text` into its lines, each with the line feed that ends it.
pub fn split_lines(text: &[char]) -> (out: Vec<String>)
    ensures
        views(out@) == lines_with_endings(text@),
{
    let mut out: Vec<String> = Vec::new();
    let mut start: usize = 0;
    assert(text@.skip(0) =~= text@);
    assert(views(out@) =~= Seq::<Seq<char>>::empty());
    while start < text.len()
        invariant
            start <= text@.len(),
            lines_with_endings(text@) == views(out@) + lines_with_endings(
                text@.skip(start as int),
            ),
        decreases text@.len() - start,
    {
        let ghost rest = text@.skip(start as int);
        let ghost done = views(out@);
        proof {
            lemma_first_line_bounds(rest);
        }
        let end = line_end(text, start);
        let line = slice_string(text, start, end);
        assert(line@ =~= rest.take(first_line_len(rest)));
        assert(rest.skip(first_line_len(rest)) =~= text@.skip(end as int));
        out.push(line);
        assert(views(out@) =~= done.push(line@));
        assert(done + (seq![line@] + lines_with_endings(text@.skip(end as int))) =~= done.push(
            line@,
        ) + lines_with_endings(text@.skip(end as int)));
        start = end;
    }
    assert(views(out@) + Seq::<Seq<char>>::empty() =~= views(out@));
    out
}

/// Lines put one behind the other.
pub open spec fn joined(lines: Seq<Seq<char>>) -> Seq<char>
    decreases lines.len(),
{
    if lines.len() == 0 {
        Seq::empty()
    } else {
        lines[0] + joined(lines.skip(1))
    }
}

/// A first line holds a line feed at its end or nowhere.
pub proof fn lemma_first_line_ends_at_feed(text: Seq<char>)
    ensures
        forall|i: int| 0 <= i < first_line_len(text) - 1 ==> text[i] != '\n',
        first_line_len(text) < text.len() ==> text[first_line_len(text) - 1] == '\n',
    decreases text.len(),
{
    if text.len() > 0 && text[0] != '\n' {
        lemma_first_line_ends_at_feed(text.skip(1));
        lemma_first_line_bounds(text.skip(1));
        assert forall|i: int| 0 <= i < first_line_len(text) - 1 implies text[i] != '\n' by {
            if i > 0 {
                assert(text.skip(1)[i - 1] == text[i]);
            }
        }
        if first_line_len(text) < text.len() {
            assert(text.skip(1)[first_line_len(text.skip(1)) - 1] == text[first_line_len(text) - 1]);
        }
    }
}

/// Splitting into lines loses nothing and adds nothing: the lines, put one
/// behind the other, are the text. No line is empty, a line feed stands
/// only at the end of a line, and every line but the last ends in one.
pub proof fn lemma_lines_join(text: Seq<char>)
    ensures
        joined(lines_with_endings(text)) == text,
        forall|k: int|
            0 <= k < lines_with_endings(text).len() ==> {
                let line = #[trigger] lines_with_endings(text)[k];
                &&& line.len() > 0
                &&& forall|i: int| 0 <= i < line.len() - 1 ==> line[i] != '\n'
                &&& k < lines_with_endings(text).len() - 1 ==> line.last() == '\n'
            },
    decreases text.len(),
{
    if text.len() == 0 {
        assert(text =~= Seq::<char>::empty());
    } else {
        lemma_first_line_bounds(text);
        lemma_first_line_ends_at_feed(text);
        let n = first_line_len(text);
        let first = text.take(n);
        let rest = text.skip(n);
        let lines = lines_with_endings(text);
        let others = lines_with_endings(rest);
        lemma_lines_join(rest);
        assert(lines.skip(1) =~= others);
        assert(first + rest =~= text);
        assert forall|k: int| 0 <= k < lines.len() implies {
            let line = #[trigger] lines[k];
            &&& line.len() > 0
            &&& forall|i: int| 0 <= i < line.len() - 1 ==> line[i] != '\n'
            &&& k < lines.len() - 1 ==> line.last() == '\n'
        } by {
            if k == 0 {
                if lines.len() > 1 {
                    assert(others.len() > 0);
                    assert(rest.len() > 0);
                }
            } else {
                assert(lines[k] == others[k - 1]);
            }
        }
    }
}

} // verus!
