//! How deeply the elements of an XML text are nested, found without building a tree.

use vstd::prelude::*;

use crate::num::whole::{greatest, monus};
use crate::text::{matches_at, stands_at, to_chars};

verus! {

/// The place behind the first `mark` from `from` on, or the end of the text.
pub open spec fn past(text: Seq<char>, from: int, mark: Seq<char>) -> int
    decreases text.len() - from,
{
    if from >= text.len() {
        text.len() as int
    } else if stands_at(text, from, mark) {
        from + mark.len()
    } else {
        past(text, from + 1, mark)
    }
}

/// The place behind a tag that is being read at `from`: behind the first `>` that does not stand
/// in quotes, or the end of the text.
pub open spec fn past_tag(text: Seq<char>, from: int, quote: Option<char>) -> int
    decreases text.len() - from,
{
    if from >= text.len() {
        text.len() as int
    } else if quote is None && text[from] == '>' {
        from + 1
    } else {
        past_tag(text, from + 1, quote_after(quote, text[from]))
    }
}

/// The quote that is open behind a character of a tag.
pub open spec fn quote_after(quote: Option<char>, c: char) -> Option<char> {
    match quote {
        Some(mark) => if c == mark {
            None
        } else {
            quote
        },
        None => if c == '"' || c == '\'' {
            Some(c)
        } else {
            None
        },
    }
}

/// What a piece of a text is.
pub enum Piece {
    /// A character of a text, a comment, a section or an instruction: no elements.
    Plain,
    /// The beginning of an end tag.
    EndTag,
    /// A tag that opens an element.
    StartTag,
    /// A tag that is an element of its own.
    EmptyTag,
}

/// The place behind the piece that begins at `at`.
pub open spec fn piece_end(text: Seq<char>, at: int) -> int {
    if text[at] != '<' {
        at + 1
    } else if stands_at(text, at, "<!--"@) {
        past(text, at + 4, "-->"@)
    } else if stands_at(text, at, "<!["@) {
        past(text, at + 3, "]]>"@)
    } else if stands_at(text, at, "<?"@) {
        past(text, at + 2, "?>"@)
    } else if stands_at(text, at, "</"@) {
        at + 2
    } else {
        past_tag(text, at + 1, None)
    }
}

/// What begins at `at`.
pub open spec fn piece_at(text: Seq<char>, at: int) -> Piece {
    let end = piece_end(text, at);
    if text[at] != '<' || stands_at(text, at, "<!--"@) || stands_at(text, at, "<!["@) || stands_at(
        text,
        at,
        "<?"@,
    ) {
        Piece::Plain
    } else if stands_at(text, at, "</"@) {
        Piece::EndTag
    } else if at + 2 < end <= text.len() && text[end - 1] == '>' && text[end - 2] == '/' {
        Piece::EmptyTag
    } else {
        Piece::StartTag
    }
}

/// The greatest number of elements that are open at once from `at` on, where `open` are open there.
/// An element without content counts while its tag is read.
pub open spec fn depth_from(text: Seq<char>, at: int, open: int) -> int
    decreases text.len() - at,
{
    if at >= text.len() {
        open
    } else {
        let end = piece_end(text, at);
        let (peak, after) = match piece_at(text, at) {
            Piece::Plain => (open, open),
            Piece::EndTag => (open, monus(open, 1)),
            Piece::StartTag => (open + 1, open + 1),
            Piece::EmptyTag => (open + 1, open),
        };
        if at < end <= text.len() {
            greatest(peak, depth_from(text, end, after))
        } else {
            peak
        }
    }
}

/// The greatest number of elements that are open at once.
pub open spec fn xml_depth(text: Seq<char>) -> int {
    depth_from(text, 0, 0)
}

fn skip_past(text: &Vec<char>, from: usize, mark: &str) -> (r: usize)
    requires
        from <= text.len(),
    ensures
        r == past(text@, from as int, mark@),
        from <= r <= text.len(),
{
    let wanted = to_chars(mark);
    let mut at: usize = from;
    while at < text.len()
        invariant
            from <= at <= text.len(),
            wanted@ == mark@,
            past(text@, from as int, mark@) == past(text@, at as int, mark@),
        decreases text.len() - at,
    {
        if matches_at(text, at, &wanted) {
            return at + wanted.len();
        }
        at = at + 1;
    }
    at
}

fn skip_tag(text: &Vec<char>, from: usize) -> (r: usize)
    requires
        from <= text.len(),
    ensures
        r == past_tag(text@, from as int, None),
        from <= r <= text.len(),
{
    let mut quote: Option<char> = None;
    let mut at: usize = from;
    while at < text.len()
        invariant
            from <= at <= text.len(),
            past_tag(text@, from as int, None) == past_tag(text@, at as int, quote),
        decreases text.len() - at,
    {
        let c = text[at];
        match quote {
            Some(mark) => if c == mark {
                quote = None;
            },
            None => if c == '>' {
                return at + 1;
            } else if c == '"' || c == '\'' {
                quote = Some(c);
            },
        }
        at = at + 1;
    }
    at
}

fn stands_here(text: &Vec<char>, at: usize, part: &str) -> (r: bool)
    requires
        at <= text.len(),
    ensures
        r == stands_at(text@, at as int, part@),
        r ==> at + part@.len() <= text.len(),
{
    let wanted = to_chars(part);
    matches_at(text, at, &wanted)
}

/// How deeply the elements of a text are nested.
pub fn measure_depth(xml: &str) -> (r: usize)
    ensures
        r == xml_depth(xml@),
{
    let text = to_chars(xml);
    let mut at: usize = 0;
    let mut open: usize = 0;
    let mut deepest: usize = 0;
    proof {
        reveal_strlit("<!--");
        reveal_strlit("<![");
        reveal_strlit("<?");
        reveal_strlit("</");
    }
    while at < text.len()
        invariant
            text@ == xml@,
            at <= text.len(),
            open <= at,
            deepest <= at,
            xml_depth(xml@) == greatest(
                deepest as int,
                depth_from(text@, at as int, open as int),
            ),
            "<!--"@.len() == 4,
            "<!["@.len() == 3,
            "<?"@.len() == 2,
            "</"@.len() == 2,
        decreases text.len() - at,
    {
        if text[at] != '<' {
            at = at + 1;
        } else if stands_here(&text, at, "<!--") {
            at = skip_past(&text, at + 4, "-->");
        } else if stands_here(&text, at, "<![") {
            at = skip_past(&text, at + 3, "]]>");
        } else if stands_here(&text, at, "<?") {
            at = skip_past(&text, at + 2, "?>");
        } else if stands_here(&text, at, "</") {
            if open > deepest {
                deepest = open;
            }
            if open > 0 {
                open = open - 1;
            }
            at = at + 2;
        } else {
            let end = skip_tag(&text, at + 1);
            if open + 1 > deepest {
                deepest = open + 1;
            }
            if !(end - at > 2 && text[end - 1] == '>' && text[end - 2] == '/') {
                open = open + 1;
            }
            at = end;
        }
    }
    if open > deepest {
        open
    } else {
        deepest
    }
}

/// A text without tags has no depth.
pub proof fn texts_without_tags_are_flat(text: Seq<char>)
    requires
        !text.contains('<'),
    ensures
        xml_depth(text) == 0,
{
    lemma_flat(text, 0, 0);
}

proof fn lemma_flat(text: Seq<char>, at: int, open: int)
    requires
        !text.contains('<'),
        0 <= at <= text.len(),
    ensures
        depth_from(text, at, open) == open,
    decreases text.len() - at,
{
    if at < text.len() {
        assert(text.contains(text[at]));
        lemma_flat(text, at + 1, open);
    }
}

/// A start tag makes what follows one deeper, an end tag one shallower, and a tag that is empty is
/// only deep itself. Nothing lies above where it begins.
pub proof fn tags_open_and_close(text: Seq<char>, at: int, open: int)
    requires
        0 <= at < text.len(),
        0 <= open,
        at < piece_end(text, at) <= text.len(),
    ensures
        ({
            let end = piece_end(text, at);
            let here = depth_from(text, at, open);
            &&& here >= open
            &&& piece_at(text, at) is StartTag ==> here >= open + 1 && here >= depth_from(
                text,
                end,
                open + 1,
            )
            &&& piece_at(text, at) is EmptyTag ==> here >= open + 1 && here >= depth_from(
                text,
                end,
                open,
            )
            &&& piece_at(text, at) is EndTag && open > 0 ==> here == if depth_from(
                text,
                end,
                open - 1,
            ) > open {
                depth_from(text, end, open - 1)
            } else {
                open
            }
            &&& piece_at(text, at) is Plain ==> here == depth_from(text, end, open)
        }),
{
    lemma_no_less(text, piece_end(text, at), open);
    lemma_no_less(text, piece_end(text, at), open + 1);
}

proof fn lemma_no_less(text: Seq<char>, at: int, open: int)
    requires
        0 <= at,
    ensures
        depth_from(text, at, open) >= open,
{
}

} // verus!
