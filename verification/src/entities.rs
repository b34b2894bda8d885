//! The four character references that stand for markup characters: writing
//! them when text goes into a page, and reading them back when source text
//! is recovered from rendered HTML.

use vstd::prelude::*;
use crate::text::occurs_at;
use crate::text::push_all;
use crate::text::replace_all;
use crate::text::replaced;
use crate::text::to_chars;
use crate::text::to_string;

verus! {

/// The text that `text` stands for: first every `&quot;` becomes a quotation
/// mark, then every `&lt;` and `&gt;` an angle bracket, and last every
/// `&amp;` an ampersand. The ampersand comes last, so that what a decoded
/// `&amp;` leaves behind is not read as the start of another reference.
pub open spec fn decoded(text: Seq<char>) -> Seq<char> {
    replaced(
        replaced(replaced(replaced(text, "&quot;"@, "\""@), "&lt;"@, "<"@), "&gt;"@, ">"@),
        "&amp;"@,
        "&"@,
    )
}

/// Recovers literal text from text in which markup characters are written
/// as character references.
pub fn decode_entities(text: &str) -> (out: String)
    ensures
        out@ == decoded(text@),
{
    let chars = to_chars(text);
    let step = replace_all(
        chars.as_slice(),
        to_chars("&quot;").as_slice(),
        to_chars("\"").as_slice(),
    );
    let step = replace_all(step.as_slice(), to_chars("&lt;").as_slice(), to_chars("<").as_slice());
    let step = replace_all(step.as_slice(), to_chars("&gt;").as_slice(), to_chars(">").as_slice());
    let step = replace_all(step.as_slice(), to_chars("&amp;").as_slice(), to_chars("&").as_slice());
    to_string(step.as_slice())
}

/// How one character is written in a page.
pub open spec fn escaped_char(c: char) -> Seq<char> {
    if c == '&' {
        "&amp;"@
    } else if c == '<' {
        "&lt;"@
    } else if c == '>' {
        "&gt;"@
    } else if c == '"' {
        "&quot;"@
    } else {
        seq![c]
    }
}

/// `text` with each markup character written as its character reference.
pub open spec fn escaped(text: Seq<char>) -> Seq<char>
    decreases text.len(),
{
    if text.len() == 0 {
        Seq::empty()
    } else {
        escaped_char(text[0]) + escaped(text.skip(1))
    }
}

/// Writes `text` so that a browser shows it as it stands, inside an element
/// or a quoted attribute value.
pub fn escape_text(text: &str) -> (out: String)
    ensures
        out@ == escaped(text@),
{
    let chars = to_chars(text);
    let amp = to_chars("&amp;");
    let lt = to_chars("&lt;");
    let gt = to_chars("&gt;");
    let quot = to_chars("&quot;");
    let mut out: Vec<char> = Vec::new();
    let mut i: usize = 0;
    assert(chars@.skip(0) =~= chars@);
    while i < chars.len()
        invariant
            i <= chars@.len(),
            amp@ == "&amp;"@,
            lt@ == "&lt;"@,
            gt@ == "&gt;"@,
            quot@ == "&quot;"@,
            escaped(chars@) == out@ + escaped(chars@.skip(i as int)),
        decreases chars@.len() - i,
    {
        let ghost done = out@;
        let ghost rest = chars@.skip(i as int);
        let c = chars[i];
        if c == '&' {
            push_all(&mut out, amp.as_slice());
        } else if c == '<' {
            push_all(&mut out, lt.as_slice());
        } else if c == '>' {
            push_all(&mut out, gt.as_slice());
        } else if c == '"' {
            push_all(&mut out, quot.as_slice());
        } else {
            out.push(c);
            assert(out@ =~= done + seq![c]);
        }
        i += 1;
        assert(rest.skip(1) =~= chars@.skip(i as int));
        assert(done + (escaped_char(c) + escaped(chars@.skip(i as int))) =~= out@ + escaped(
            chars@.skip(i as int),
        ));
    }
    assert(out@ + Seq::<char>::empty() =~= out@);
    to_string(out.as_slice())
}

/// The order in which the references are read back, counted from the last:
/// the ampersand is 1, the quotation mark 4. A character that is written
/// as it stands has no rank.
spec fn rank(c: char) -> int {
    if c == '"' {
        4
    } else if c == '<' {
        3
    } else if c == '>' {
        2
    } else if c == '&' {
        1
    } else {
        0
    }
}

/// The reference of the given rank.
spec fn entity(rank: int) -> Seq<char> {
    if rank == 4 {
        "&quot;"@
    } else if rank == 3 {
        "&lt;"@
    } else if rank == 2 {
        "&gt;"@
    } else {
        "&amp;"@
    }
}

/// The character that the reference of the given rank stands for.
spec fn literal(rank: int) -> Seq<char> {
    if rank == 4 {
        "\""@
    } else if rank == 3 {
        "<"@
    } else if rank == 2 {
        ">"@
    } else {
        "&"@
    }
}

/// `text` in which only the characters up to the given rank are written as
/// references: what is left of escaped text once the references of higher
/// rank have been read back.
spec fn escaped_up_to(text: Seq<char>, level: int) -> Seq<char>
    decreases text.len(),
{
    if text.len() == 0 {
        Seq::empty()
    } else if 1 <= rank(text[0]) <= level {
        entity(rank(text[0])) + escaped_up_to(text.skip(1), level)
    } else {
        seq![text[0]] + escaped_up_to(text.skip(1), level)
    }
}

/// Text escaped up to the highest rank is escaped text.
proof fn lemma_escaped_is_up_to_four(text: Seq<char>)
    ensures
        escaped_up_to(text, 4) == escaped(text),
    decreases text.len(),
{
    if text.len() > 0 {
        lemma_escaped_is_up_to_four(text.skip(1));
    }
}

/// Text escaped up to no rank is the text itself.
proof fn lemma_up_to_zero_is_text(text: Seq<char>)
    ensures
        escaped_up_to(text, 0) == text,
    decreases text.len(),
{
    if text.len() > 0 {
        lemma_up_to_zero_is_text(text.skip(1));
        assert(seq![text[0]] + text.skip(1) =~= text);
    } else {
        assert(text =~= Seq::<char>::empty());
    }
}

/// Replacing passes over a stretch of text in which the pattern cannot
/// start.
proof fn lemma_replaced_passes(
    stretch: Seq<char>,
    rest: Seq<char>,
    pattern: Seq<char>,
    with: Seq<char>,
)
    requires
        pattern.len() > 0,
        forall|i: int| 0 <= i < stretch.len() ==> stretch[i] != pattern[0],
    ensures
        replaced(stretch + rest, pattern, with) == stretch + replaced(rest, pattern, with),
    decreases stretch.len(),
{
    let text = stretch + rest;
    if stretch.len() == 0 {
        assert(text =~= rest);
        assert(stretch + replaced(rest, pattern, with) =~= replaced(rest, pattern, with));
    } else {
        assert(text[0] == stretch[0]);
        if occurs_at(text, pattern, 0) {
            assert(text.subrange(0, pattern.len() as int)[0] == pattern[0]);
        }
        assert(text.skip(1) =~= stretch.skip(1) + rest);
        lemma_replaced_passes(stretch.skip(1), rest, pattern, with);
        assert(seq![text[0]] + (stretch.skip(1) + replaced(rest, pattern, with)) =~= stretch
            + replaced(rest, pattern, with));
    }
}

/// Reading the references of one rank back takes escaped text one rank
/// down.
proof fn lemma_one_rank_down(text: Seq<char>, level: int)
    requires
        1 <= level <= 4,
    ensures
        replaced(escaped_up_to(text, level), entity(level), literal(level)) == escaped_up_to(
            text,
            level - 1,
        ),
    decreases text.len(),
{
    reveal_strlit("&quot;");
    reveal_strlit("&lt;");
    reveal_strlit("&gt;");
    reveal_strlit("&amp;");
    reveal_strlit("\"");
    reveal_strlit("<");
    reveal_strlit(">");
    reveal_strlit("&");
    let pattern = entity(level);
    let with = literal(level);
    if text.len() > 0 {
        let c = text[0];
        let rest = escaped_up_to(text.skip(1), level);
        let below = escaped_up_to(text.skip(1), level - 1);
        lemma_one_rank_down(text.skip(1), level);
        if rank(c) == level {
            let whole = pattern + rest;
            assert(whole.subrange(0, pattern.len() as int) =~= pattern);
            assert(whole.skip(pattern.len() as int) =~= rest);
            assert(with =~= seq![c]);
        } else if 1 <= rank(c) < level {
            let token = entity(rank(c));
            let whole = token + rest;
            assert(whole[1] == token[1]);
            if occurs_at(whole, pattern, 0) {
                assert(whole.subrange(0, pattern.len() as int)[1] == pattern[1]);
            }
            assert(whole.skip(1) =~= token.skip(1) + rest);
            lemma_replaced_passes(token.skip(1), rest, pattern, with);
            assert(seq![whole[0]] + (token.skip(1) + below) =~= token + below);
        } else {
            lemma_replaced_passes(seq![c], rest, pattern, with);
        }
    }
}

/// Escaping loses nothing: the text that a reader of the page decodes from
/// escaped text is the text that was escaped.
pub proof fn lemma_decoded_escaped(text: Seq<char>)
    ensures
        decoded(escaped(text)) == text,
{
    lemma_escaped_is_up_to_four(text);
    lemma_one_rank_down(text, 4);
    lemma_one_rank_down(text, 3);
    lemma_one_rank_down(text, 2);
    lemma_one_rank_down(text, 1);
    lemma_up_to_zero_is_text(text);
}

/// Escaped text holds no angle bracket and no quotation mark, so it cannot
/// end the element or the attribute value that it stands in.
pub proof fn lemma_escaped_holds_no_markup(text: Seq<char>)
    ensures
        forall|i: int|
            0 <= i < escaped(text).len() ==> {
                &&& #[trigger] escaped(text)[i] != '<'
                &&& escaped(text)[i] != '>'
                &&& escaped(text)[i] != '"'
            },
    decreases text.len(),
{
    reveal_strlit("&quot;");
    reveal_strlit("&lt;");
    reveal_strlit("&gt;");
    reveal_strlit("&amp;");
    if text.len() > 0 {
        lemma_escaped_holds_no_markup(text.skip(1));
        let token = escaped_char(text[0]);
        let rest = escaped(text.skip(1));
        assert forall|i: int| 0 <= i < escaped(text).len() implies {
            &&& #[trigger] escaped(text)[i] != '<'
            &&& escaped(text)[i] != '>'
            &&& escaped(text)[i] != '"'
        } by {
            if i < token.len() {
                assert(escaped(text)[i] == token[i]);
            } else {
                assert(escaped(text)[i] == rest[i - token.len()]);
            }
        }
    }
}

} // verus!
