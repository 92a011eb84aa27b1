//! One step of the grammar: which rule a text begins with, and the two
//! independent chunks that the rule leaves to be parsed.

use vstd::prelude::*;
use crate::error::{Fault, ScparseError};
use crate::text::{
    chars_of, closing, closing_brace, first_stop, has_prefix, lemma_closing_bounds,
    lemma_first_stop_bounds, lemma_prefix_first, lemma_strip_shrinks, lemma_trim, scan, strip,
    strip_prefix, text_of, trim, trim_range, Stop,
};

verus! {

/// The statement forms, in the order in which they are tried.
#[derive(Clone, Copy, PartialEq, Eq, Structural, Debug)]
pub enum Rule {
    /// Nothing but white space: no statement.
    Empty,
    /// `{ head } tail`.
    Block,
    /// `if tail`.
    If,
    /// `elif tail`.
    Elif,
    /// `else tail`.
    Else,
    /// `while tail`.
    While,
    /// `# ...` up to the end of the line, then `tail`.
    Comment,
    /// `label = head`, then `tail`.
    Assign,
    /// `label`, which may be an expression, then `tail`.
    Candidate,
}

/// What one step of the grammar makes of a text.
pub struct Pieces {
    /// The rule that the text begins with.
    pub rule: Rule,
    /// The name that an assignment binds, or the text of a would-be
    /// expression; empty under the other rules.
    pub label: Seq<char>,
    /// The chunk that belongs to the rule itself: the inside of a block or
    /// the right-hand side of an assignment; empty under the other rules.
    pub head: Seq<char>,
    /// The chunk that follows.
    pub tail: Seq<char>,
}

/// The pieces of a text that holds no statement.
pub open spec fn no_pieces() -> Pieces {
    Pieces { rule: Rule::Empty, label: Seq::empty(), head: Seq::empty(), tail: Seq::empty() }
}

/// The pieces of a statement that begins with a keyword or a comment: all of
/// it is left to the tail.
pub open spec fn rest_only(rule: Rule, tail: Seq<char>) -> Pieces {
    Pieces { rule, label: Seq::empty(), head: Seq::empty(), tail }
}

/// What is left of `s` behind position `end`: nothing where `end` is the end
/// of `s`.
pub open spec fn after(s: Seq<char>, end: nat) -> Seq<char> {
    if end < s.len() {
        s.skip(end + 1 as int)
    } else {
        Seq::empty()
    }
}

/// What follows a statement that ends at `end`: a newline or `;` there belongs
/// to the statement, a `{` or `#` begins the next one.
pub open spec fn following(s: Seq<char>, end: nat) -> Seq<char> {
    if end < s.len() && (s[end as int] == '\n' || s[end as int] == ';') {
        s.skip(end + 1 as int)
    } else {
        s.skip(end as int)
    }
}

/// The pieces of the statement that has `exp` before its terminator and
/// `tail` behind it: an assignment where `exp` holds a `=`, split at the first
/// one, and a would-be expression otherwise.
pub open spec fn statement(exp: Seq<char>, tail: Seq<char>) -> Pieces {
    let eq = first_stop(exp, 0, Stop::Equals);
    if eq < exp.len() {
        Pieces { rule: Rule::Assign, label: trim(exp.take(eq as int)), head: exp.skip(eq + 1 as int), tail }
    } else {
        Pieces { rule: Rule::Candidate, label: trim(exp), head: Seq::empty(), tail }
    }
}

/// One step of the grammar on `text`.
///
/// The text is trimmed first. The rules are tried in a fixed order: a block,
/// `if`, `elif`, `else`, `while`, a comment, and at last a statement that runs
/// up to the first newline, `;`, `{` or `#`. A keyword is a prefix of the text,
/// whatever stands behind it, and is taken away together with its immediate
/// repetitions. A comment runs to the end of its line, or of the text. The
/// only error of this step is a block that is never closed.
pub open spec fn split_spec(text: Seq<char>) -> Result<Pieces, Fault> {
    let s = trim(text);
    if s.len() == 0 {
        Ok(no_pieces())
    } else if s[0] == '{' {
        match closing(s, 1, 0) {
            None => Err(Fault::BracketNotClosed),
            Some(end) => Ok(
                Pieces {
                    rule: Rule::Block,
                    label: Seq::empty(),
                    head: s.subrange(1, end as int),
                    tail: s.skip(end + 1 as int),
                },
            ),
        }
    } else if "if"@.is_prefix_of(s) {
        Ok(rest_only(Rule::If, strip(s, "if"@)))
    } else if "elif"@.is_prefix_of(s) {
        Ok(rest_only(Rule::Elif, strip(s, "elif"@)))
    } else if "else"@.is_prefix_of(s) {
        Ok(rest_only(Rule::Else, strip(s, "else"@)))
    } else if "while"@.is_prefix_of(s) {
        Ok(rest_only(Rule::While, strip(s, "while"@)))
    } else if s[0] == '#' {
        Ok(rest_only(Rule::Comment, after(s, first_stop(s, 0, Stop::Newline))))
    } else {
        let end = first_stop(s, 0, Stop::Terminator);
        Ok(statement(s.take(end as int), following(s, end)))
    }
}

/// A window `lo..hi` of a buffer.
#[derive(Clone, Copy, Debug)]
pub struct Span {
    /// Where the window begins.
    pub lo: usize,
    /// Where the window ends.
    pub hi: usize,
}

impl Span {
    /// The text of this window of `buf`.
    pub open spec fn of(self, buf: Seq<char>) -> Seq<char> {
        buf.subrange(self.lo as int, self.hi as int)
    }

    /// Whether this window lies inside `lo..hi`.
    pub open spec fn within(self, lo: usize, hi: usize) -> bool {
        lo <= self.lo <= self.hi <= hi
    }
}

/// One step of the grammar on a window of a buffer: the pieces as windows of
/// the same buffer.
#[derive(Clone, Copy, Debug)]
pub struct Cut {
    /// The rule that the text begins with.
    pub rule: Rule,
    /// Where the label stands.
    pub label: Span,
    /// Where the head stands.
    pub head: Span,
    /// Where the tail stands.
    pub tail: Span,
}

impl Cut {
    /// The pieces that this cut marks in `buf`.
    pub open spec fn pieces(self, buf: Seq<char>) -> Pieces {
        Pieces {
            rule: self.rule,
            label: self.label.of(buf),
            head: self.head.of(buf),
            tail: self.tail.of(buf),
        }
    }

    /// Whether all the windows of this cut lie inside `lo..hi`.
    pub open spec fn within(self, lo: usize, hi: usize) -> bool {
        self.label.within(lo, hi) && self.head.within(lo, hi) && self.tail.within(lo, hi)
    }
}

/// A cut that leaves all of `tail` to be parsed under `rule`.
fn only_tail(rule: Rule, at: usize, tail: Span) -> (c: Cut)
    ensures
        c == (Cut { rule, label: Span { lo: at, hi: at }, head: Span { lo: at, hi: at }, tail }),
{
    Cut { rule, label: Span { lo: at, hi: at }, head: Span { lo: at, hi: at }, tail }
}

/// One step of the grammar on the window `lo..hi` of `buf`.
pub fn cut(buf: &Vec<char>, lo: usize, hi: usize) -> (r: Result<Cut, ScparseError>)
    requires
        lo <= hi <= buf.len(),
    ensures
        match r {
            Ok(c) => c.within(lo, hi) && split_spec(buf@.subrange(lo as int, hi as int)) == Ok::<
                Pieces,
                Fault,
            >(c.pieces(buf@)),
            Err(e) => split_spec(buf@.subrange(lo as int, hi as int)) == Err::<Pieces, Fault>(e@),
        },
{
    let (a, b) = trim_range(buf, lo, hi);
    let ghost s = buf@.subrange(a as int, b as int);
    let nothing = Span { lo: a, hi: a };
    assert(nothing.of(buf@) =~= Seq::<char>::empty());
    if a == b {
        return Ok(only_tail(Rule::Empty, a, nothing));
    }
    assert(s[0] == buf[a as int]);
    if buf[a] == '{' {
        match closing_brace(buf, a, b, a + 1) {
            None => Err(ScparseError::BracketNotClosed),
            Some(end) => {
                let head = Span { lo: a + 1, hi: end };
                let tail = Span { lo: end + 1, hi: b };
                assert(head.of(buf@) =~= s.subrange(1, end - a));
                assert(tail.of(buf@) =~= s.skip(end - a + 1));
                Ok(Cut { rule: Rule::Block, label: nothing, head, tail })
            },
        }
    } else if has_prefix(buf, a, b, "if") {
        let from = strip_prefix(buf, a, b, "if");
        Ok(only_tail(Rule::If, a, Span { lo: from, hi: b }))
    } else if has_prefix(buf, a, b, "elif") {
        let from = strip_prefix(buf, a, b, "elif");
        Ok(only_tail(Rule::Elif, a, Span { lo: from, hi: b }))
    } else if has_prefix(buf, a, b, "else") {
        let from = strip_prefix(buf, a, b, "else");
        Ok(only_tail(Rule::Else, a, Span { lo: from, hi: b }))
    } else if has_prefix(buf, a, b, "while") {
        let from = strip_prefix(buf, a, b, "while");
        Ok(only_tail(Rule::While, a, Span { lo: from, hi: b }))
    } else if buf[a] == '#' {
        let end = scan(buf, a, b, a, Stop::Newline);
        let tail = if end < b {
            Span { lo: end + 1, hi: b }
        } else {
            Span { lo: b, hi: b }
        };
        assert(tail.of(buf@) =~= after(s, (end - a) as nat));
        Ok(only_tail(Rule::Comment, a, tail))
    } else {
        let end = scan(buf, a, b, a, Stop::Terminator);
        assert(end < b ==> s[end - a] == buf[end as int]);
        let next = if end < b && (buf[end] == '\n' || buf[end] == ';') {
            end + 1
        } else {
            end
        };
        let tail = Span { lo: next, hi: b };
        let ghost exp = s.take(end - a);
        assert(exp =~= buf@.subrange(a as int, end as int));
        assert(tail.of(buf@) =~= following(s, (end - a) as nat));
        let eq = scan(buf, a, end, a, Stop::Equals);
        if eq < end {
            let (from, to) = trim_range(buf, a, eq);
            let head = Span { lo: eq + 1, hi: end };
            assert(buf@.subrange(a as int, eq as int) =~= exp.take(eq - a));
            assert(head.of(buf@) =~= exp.skip(eq - a + 1));
            Ok(Cut { rule: Rule::Assign, label: Span { lo: from, hi: to }, head, tail })
        } else {
            let (from, to) = trim_range(buf, a, end);
            Ok(Cut { rule: Rule::Candidate, label: Span { lo: from, hi: to }, head: nothing, tail })
        }
    }
}

/// What one step of the grammar makes of a script, each piece a string of its
/// own.
#[derive(Debug, PartialEq, Eq)]
pub struct Split {
    /// The rule that the script begins with.
    pub rule: Rule,
    /// The name that an assignment binds, or the text of a would-be
    /// expression.
    pub label: String,
    /// The chunk that belongs to the rule itself.
    pub head: String,
    /// The chunk that follows.
    pub tail: String,
}

impl View for Split {
    type V = Pieces;

    open spec fn view(&self) -> Pieces {
        Pieces { rule: self.rule, label: self.label@, head: self.head@, tail: self.tail@ }
    }
}

/// One step of the grammar on `script`: the rule it begins with and the two
/// chunks that are left to be parsed, which do not depend on each other.
pub fn split(script: &str) -> (r: Result<Split, ScparseError>)
    ensures
        match r {
            Ok(s) => split_spec(script@) == Ok::<Pieces, Fault>(s@),
            Err(e) => split_spec(script@) == Err::<Pieces, Fault>(e@),
        },
{
    let buf = chars_of(script);
    assert(buf@.subrange(0, buf.len() as int) =~= script@);
    match cut(&buf, 0, buf.len()) {
        Err(e) => Err(e),
        Ok(c) => Ok(
            Split {
                rule: c.rule,
                label: text_of(&buf, c.label.lo, c.label.hi),
                head: text_of(&buf, c.head.lo, c.head.hi),
                tail: text_of(&buf, c.tail.lo, c.tail.hi),
            },
        ),
    }
}

/// Splits the text behind an opening brace into the inside of the block and
/// what follows the brace that closes it.
pub fn get_block<'a>(code: &'a str) -> (r: Result<(&'a str, &'a str), ScparseError>)
    ensures
        match r {
            Ok(pair) => closing(code@, 0, 0) matches Some(end) && pair.0@ == code@.take(end as int)
                && pair.1@ == code@.skip(end + 1 as int),
            Err(e) => closing(code@, 0, 0) is None && e@ == Fault::BracketNotClosed,
        },
{
    let buf = chars_of(code);
    assert(buf@.subrange(0, buf.len() as int) =~= code@);
    match closing_brace(&buf, 0, buf.len(), 0) {
        None => Err(ScparseError::BracketNotClosed),
        Some(end) => {
            let inside = code.substring_char(0, end);
            let rest = code.substring_char(end + 1, buf.len());
            Ok((inside, rest))
        },
    }
}

/// A text that begins with `#`, once trimmed, is a comment up to the end of
/// its first line: what follows that line is left to be parsed.
pub proof fn lemma_comment_rule(text: Seq<char>)
    requires
        trim(text).len() > 0,
        trim(text)[0] == '#',
    ensures
        split_spec(text) == Ok::<Pieces, Fault>(
            rest_only(Rule::Comment, after(trim(text), first_stop(trim(text), 0, Stop::Newline))),
        ),
{
    let s = trim(text);
    reveal_strlit("if");
    reveal_strlit("elif");
    reveal_strlit("else");
    reveal_strlit("while");
    if "if"@.is_prefix_of(s) {
        lemma_prefix_first("if"@, s);
    }
    if "elif"@.is_prefix_of(s) {
        lemma_prefix_first("elif"@, s);
    }
    if "else"@.is_prefix_of(s) {
        lemma_prefix_first("else"@, s);
    }
    if "while"@.is_prefix_of(s) {
        lemma_prefix_first("while"@, s);
    }
}

/// Each step of the grammar leaves less than it was given: both chunks of a
/// text that holds a statement are shorter than the text.
pub proof fn lemma_split_shrinks(text: Seq<char>)
    ensures
        split_spec(text) matches Ok(p) ==> p.rule == Rule::Empty || (p.head.len() < text.len()
            && p.tail.len() < text.len()),
{
    let s = trim(text);
    lemma_trim(text);
    reveal_strlit("if");
    reveal_strlit("elif");
    reveal_strlit("else");
    reveal_strlit("while");
    if s.len() == 0 {
    } else if s[0] == '{' {
        lemma_closing_bounds(s, 1, 0);
    } else if "if"@.is_prefix_of(s) {
        lemma_strip_shrinks(s, "if"@);
    } else if "elif"@.is_prefix_of(s) {
        lemma_strip_shrinks(s, "elif"@);
    } else if "else"@.is_prefix_of(s) {
        lemma_strip_shrinks(s, "else"@);
    } else if "while"@.is_prefix_of(s) {
        lemma_strip_shrinks(s, "while"@);
    } else if s[0] == '#' {
        lemma_first_stop_bounds(s, 0, Stop::Newline);
    } else {
        lemma_first_stop_bounds(s, 0, Stop::Terminator);
        let end = first_stop(s, 0, Stop::Terminator);
        let exp = s.take(end as int);
        lemma_first_stop_bounds(exp, 0, Stop::Equals);
        lemma_first_stop_bounds(s, 1, Stop::Terminator);
    }
}

} // verus!
