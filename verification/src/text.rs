//! Scripts as sequences of characters: white space, trimming, keywords and
//! the scans that find where a statement or a block ends.
//!
//! Every function here reads a window `lo..hi` of one buffer of characters and
//! answers with positions in that buffer, so that no text is copied while a
//! script is taken apart. The contracts speak of the window's text,
//! `buf@.subrange(lo, hi)`.

use vstd::prelude::*;

verus! {

/// `String::push` of the standard library appends one character to the end of
/// the string and changes nothing else of it.
pub assume_specification[ String::push ](s: &mut String, c: char)
    ensures
        final(s)@ == old(s)@.push(c),
;

/// The characters that Unicode gives the property `White_Space`.
pub open spec fn white_space(c: char) -> bool {
    ||| ('\u{9}' <= c && c <= '\u{d}')
    ||| c == ' '
    ||| c == '\u{85}'
    ||| c == '\u{a0}'
    ||| c == '\u{1680}'
    ||| ('\u{2000}' <= c && c <= '\u{200a}')
    ||| c == '\u{2028}'
    ||| c == '\u{2029}'
    ||| c == '\u{202f}'
    ||| c == '\u{205f}'
    ||| c == '\u{3000}'
}

/// Tells whether `c` is white space.
pub fn is_whitespace(c: char) -> (r: bool)
    ensures
        r == white_space(c),
{
    ('\u{9}' <= c && c <= '\u{d}') || c == ' ' || c == '\u{85}' || c == '\u{a0}' || c
        == '\u{1680}' || ('\u{2000}' <= c && c <= '\u{200a}') || c == '\u{2028}' || c
        == '\u{2029}' || c == '\u{202f}' || c == '\u{205f}' || c == '\u{3000}'
}

/// `s` without the white space it begins with.
pub open spec fn trim_start(s: Seq<char>) -> Seq<char>
    decreases s.len(),
{
    if s.len() > 0 && white_space(s.first()) {
        trim_start(s.drop_first())
    } else {
        s
    }
}

/// `s` without the white space it ends with.
pub open spec fn trim_end(s: Seq<char>) -> Seq<char>
    decreases s.len(),
{
    if s.len() > 0 && white_space(s.last()) {
        trim_end(s.drop_last())
    } else {
        s
    }
}

/// `s` without the white space at either end.
pub open spec fn trim(s: Seq<char>) -> Seq<char> {
    trim_end(trim_start(s))
}

/// `s` without any leading repetition of `word`.
pub open spec fn strip(s: Seq<char>, word: Seq<char>) -> Seq<char>
    decreases s.len(),
{
    if word.len() > 0 && word.is_prefix_of(s) {
        strip(s.skip(word.len() as int), word)
    } else {
        s
    }
}

/// What a scan looks for.
#[derive(Clone, Copy, PartialEq, Eq, Structural, Debug)]
pub enum Stop {
    /// The end of a statement: a newline, `;`, `{` or `#`.
    Terminator,
    /// The sign `=` of an assignment.
    Equals,
    /// The newline that ends a comment.
    Newline,
}

/// Whether a scan for `kind` stops at `c`.
pub open spec fn stops(kind: Stop, c: char) -> bool {
    match kind {
        Stop::Terminator => c == '\n' || c == ';' || c == '{' || c == '#',
        Stop::Equals => c == '=',
        Stop::Newline => c == '\n',
    }
}

/// The first position at or after `from` where a scan for `kind` stops, or
/// the length of `s` where it never does.
pub open spec fn first_stop(s: Seq<char>, from: nat, kind: Stop) -> nat
    decreases s.len() - from,
{
    if from >= s.len() {
        s.len()
    } else if stops(kind, s[from as int]) {
        from
    } else {
        first_stop(s, from + 1, kind)
    }
}

/// The position of the brace that closes a block, searched from `from`, where
/// `open` counts the inner blocks that were opened before `from` and are not
/// closed yet. `None` where the text ends first.
pub open spec fn closing(s: Seq<char>, from: nat, open: nat) -> Option<nat>
    decreases s.len() - from,
{
    if from >= s.len() {
        None
    } else if s[from as int] == '}' {
        if open == 0 {
            Some(from)
        } else {
            closing(s, from + 1, (open - 1) as nat)
        }
    } else if s[from as int] == '{' {
        closing(s, from + 1, open + 1)
    } else {
        closing(s, from + 1, open)
    }
}

/// The characters of a string, one by one.
pub fn chars_of(s: &str) -> (v: Vec<char>)
    ensures
        v@ == s@,
{
    let mut v: Vec<char> = Vec::new();
    for c in it: s.chars()
        invariant
            v@ == it.seq().take(it.index() as int),
            it.seq() == s@,
    {
        v.push(c);
    }
    v
}

/// The window `lo..hi` of `buf` as a string of its own.
pub fn text_of(buf: &Vec<char>, lo: usize, hi: usize) -> (s: String)
    requires
        lo <= hi <= buf.len(),
    ensures
        s@ == buf@.subrange(lo as int, hi as int),
{
    let mut s = String::new();
    let mut i: usize = lo;
    while i < hi
        invariant
            lo <= i <= hi <= buf.len(),
            s@ == buf@.subrange(lo as int, i as int),
        decreases hi - i,
    {
        s.push(buf[i]);
        i = i + 1;
    }
    s
}

/// Narrows the window `lo..hi` until no white space stands at either end.
pub fn trim_range(buf: &Vec<char>, lo: usize, hi: usize) -> (r: (usize, usize))
    requires
        lo <= hi <= buf.len(),
    ensures
        lo <= r.0 <= r.1 <= hi,
        buf@.subrange(r.0 as int, r.1 as int) == trim(buf@.subrange(lo as int, hi as int)),
{
    let mut a: usize = lo;
    while a < hi && is_whitespace(buf[a])
        invariant
            lo <= a <= hi <= buf.len(),
            trim_start(buf@.subrange(lo as int, hi as int)) == trim_start(
                buf@.subrange(a as int, hi as int),
            ),
        decreases hi - a,
    {
        assert(buf@.subrange(a as int, hi as int).drop_first() =~= buf@.subrange(
            a + 1,
            hi as int,
        ));
        a = a + 1;
    }
    let mut b: usize = hi;
    while a < b && is_whitespace(buf[b - 1])
        invariant
            a <= b <= hi <= buf.len(),
            trim_end(buf@.subrange(a as int, hi as int)) == trim_end(
                buf@.subrange(a as int, b as int),
            ),
        decreases b - a,
    {
        assert(buf@.subrange(a as int, b as int).drop_last() =~= buf@.subrange(
            a as int,
            b - 1,
        ));
        b = b - 1;
    }
    (a, b)
}

/// Tells whether the window `lo..hi` begins with `word`.
pub fn has_prefix(buf: &Vec<char>, lo: usize, hi: usize, word: &str) -> (r: bool)
    requires
        lo <= hi <= buf.len(),
    ensures
        r == word@.is_prefix_of(buf@.subrange(lo as int, hi as int)),
{
    let n = word.unicode_len();
    if hi - lo < n {
        return false;
    }
    let ghost text = buf@.subrange(lo as int, hi as int);
    let mut i: usize = 0;
    while i < n
        invariant
            lo <= hi <= buf.len(),
            n == word@.len(),
            n <= hi - lo,
            i <= n,
            text == buf@.subrange(lo as int, hi as int),
            forall|k: int| 0 <= k < i ==> word@[k] == text[k],
        decreases n - i,
    {
        if word.get_char(i) != buf[lo + i] {
            assert(word@[i as int] != text.subrange(0, n as int)[i as int]);
            return false;
        }
        i = i + 1;
    }
    assert(word@ =~= text.subrange(0, n as int));
    true
}

/// The start of what is left of the window `lo..hi` once every leading
/// repetition of `word` is taken away.
pub fn strip_prefix(buf: &Vec<char>, lo: usize, hi: usize, word: &str) -> (r: usize)
    requires
        lo <= hi <= buf.len(),
    ensures
        lo <= r <= hi,
        buf@.subrange(r as int, hi as int) == strip(buf@.subrange(lo as int, hi as int), word@),
{
    let n = word.unicode_len();
    let mut a: usize = lo;
    if n == 0 {
        return a;
    }
    while has_prefix(buf, a, hi, word)
        invariant
            lo <= a <= hi <= buf.len(),
            n == word@.len(),
            n > 0,
            strip(buf@.subrange(lo as int, hi as int), word@) == strip(
                buf@.subrange(a as int, hi as int),
                word@,
            ),
        decreases hi - a,
    {
        assert(buf@.subrange(a as int, hi as int).skip(n as int) =~= buf@.subrange(
            a + n,
            hi as int,
        ));
        a = a + n;
    }
    a
}

/// Tells whether a scan for `kind` stops at `c`.
pub fn stops_at(kind: Stop, c: char) -> (r: bool)
    ensures
        r == stops(kind, c),
{
    match kind {
        Stop::Terminator => c == '\n' || c == ';' || c == '{' || c == '#',
        Stop::Equals => c == '=',
        Stop::Newline => c == '\n',
    }
}

/// Scans the window `lo..hi` from `from` for the first stop of `kind`.
pub fn scan(buf: &Vec<char>, lo: usize, hi: usize, from: usize, kind: Stop) -> (r: usize)
    requires
        lo <= from <= hi <= buf.len(),
    ensures
        from <= r <= hi,
        r - lo == first_stop(buf@.subrange(lo as int, hi as int), (from - lo) as nat, kind),
{
    let ghost text = buf@.subrange(lo as int, hi as int);
    let mut i: usize = from;
    while i < hi && !stops_at(kind, buf[i])
        invariant
            lo <= from <= i <= hi <= buf.len(),
            text == buf@.subrange(lo as int, hi as int),
            first_stop(text, (from - lo) as nat, kind) == first_stop(text, (i - lo) as nat, kind),
        decreases hi - i,
    {
        assert(text[i - lo] == buf[i as int]);
        i = i + 1;
    }
    assert(i < hi ==> text[i - lo] == buf[i as int]);
    i
}

/// Scans the window `lo..hi` from `from` for the brace that closes the block
/// in which `from` stands.
pub fn closing_brace(buf: &Vec<char>, lo: usize, hi: usize, from: usize) -> (r: Option<usize>)
    requires
        lo <= from <= hi <= buf.len(),
    ensures
        match r {
            Some(end) => from <= end < hi && closing(
                buf@.subrange(lo as int, hi as int),
                (from - lo) as nat,
                0,
            ) == Some((end - lo) as nat),
            None => closing(buf@.subrange(lo as int, hi as int), (from - lo) as nat, 0) is None,
        },
{
    let ghost text = buf@.subrange(lo as int, hi as int);
    let mut open: usize = 0;
    let mut i: usize = from;
    while i < hi
        invariant
            lo <= from <= i <= hi <= buf.len(),
            text == buf@.subrange(lo as int, hi as int),
            open <= i - from,
            closing(text, (from - lo) as nat, 0) == closing(text, (i - lo) as nat, open as nat),
        decreases hi - i,
    {
        assert(text[i - lo] == buf[i as int]);
        let c = buf[i];
        if c == '}' {
            if open == 0 {
                return Some(i);
            }
            open = open - 1;
        } else if c == '{' {
            open = open + 1;
        }
        i = i + 1;
    }
    None
}

/// Trimming the beginning takes white space away and nothing else: the
/// result is no longer than the text and does not begin with white space.
pub proof fn lemma_trim_start(s: Seq<char>)
    ensures
        trim_start(s).len() <= s.len(),
        trim_start(s).len() > 0 ==> !white_space(trim_start(s).first()),
    decreases s.len(),
{
    if s.len() > 0 && white_space(s.first()) {
        lemma_trim_start(s.drop_first());
    }
}

/// Trimming the end takes white space away and nothing else: the result is a
/// prefix of the text and does not end with white space.
pub proof fn lemma_trim_end(s: Seq<char>)
    ensures
        trim_end(s).len() <= s.len(),
        trim_end(s) == s.take(trim_end(s).len() as int),
        trim_end(s).len() > 0 ==> !white_space(trim_end(s).last()),
    decreases s.len(),
{
    if s.len() > 0 && white_space(s.last()) {
        let shorter = s.drop_last();
        lemma_trim_end(shorter);
        assert(shorter.take(trim_end(s).len() as int) =~= s.take(trim_end(s).len() as int));
    } else {
        assert(s.take(s.len() as int) =~= s);
    }
}

/// Trimming never makes a text longer, and a trimmed text stays as it is when
/// it is trimmed again.
pub proof fn lemma_trim(s: Seq<char>)
    ensures
        trim(s).len() <= s.len(),
        trim(trim(s)) == trim(s),
{
    let front = trim_start(s);
    let both = trim_end(front);
    lemma_trim_start(s);
    lemma_trim_end(front);
    if both.len() > 0 {
        assert(both.first() == front.first());
        assert(trim_start(both) == both);
    }
    assert(trim_end(both) == both);
}

/// Stripping a word never makes a text longer, and makes it shorter where the
/// text begins with the word.
pub proof fn lemma_strip_shrinks(s: Seq<char>, word: Seq<char>)
    ensures
        strip(s, word).len() <= s.len(),
        word.len() > 0 && word.is_prefix_of(s) ==> strip(s, word).len() < s.len(),
    decreases s.len(),
{
    if word.len() > 0 && word.is_prefix_of(s) {
        lemma_strip_shrinks(s.skip(word.len() as int), word);
    }
}

/// A scan ends inside the text, at or behind where it began.
pub proof fn lemma_first_stop_bounds(s: Seq<char>, from: nat, kind: Stop)
    requires
        from <= s.len(),
    ensures
        from <= first_stop(s, from, kind) <= s.len(),
    decreases s.len() - from,
{
    if from < s.len() && !stops(kind, s[from as int]) {
        lemma_first_stop_bounds(s, from + 1, kind);
    }
}

/// The brace that closes a block stands inside the text, at or behind where
/// the search began.
pub proof fn lemma_closing_bounds(s: Seq<char>, from: nat, open: nat)
    ensures
        closing(s, from, open) matches Some(end) ==> from <= end < s.len(),
    decreases s.len() - from,
{
    if from < s.len() {
        if s[from as int] == '}' {
            if open > 0 {
                lemma_closing_bounds(s, from + 1, (open - 1) as nat);
            }
        } else if s[from as int] == '{' {
            lemma_closing_bounds(s, from + 1, open + 1);
        } else {
            lemma_closing_bounds(s, from + 1, open);
        }
    }
}

/// A text that begins with a word begins with the first character of the
/// word.
pub proof fn lemma_prefix_first(word: Seq<char>, s: Seq<char>)
    requires
        word.len() > 0,
        word.is_prefix_of(s),
    ensures
        s.len() > 0,
        s[0] == word[0],
{
    assert(s.subrange(0, word.len() as int)[0] == word[0]);
}

} // verus!
