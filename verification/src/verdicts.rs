//! The expression engine as the parser sees it.
//!
//! The parser hands the text of a would-be expression to the engine and reads
//! one thing of the answer: whether the engine took the text for an expression.
//! The engine answers by the text alone, so a table of the texts that it
//! accepted stands for it here.

use vstd::prelude::*;
use crate::text::chars_of;

verus! {

/// The texts that the expression engine accepted.
pub struct Verdicts {
    accepted: Vec<Vec<char>>,
}

impl View for Verdicts {
    type V = Set<Seq<char>>;

    closed spec fn view(&self) -> Set<Seq<char>> {
        Set::new(
            |text: Seq<char>|
                exists|i: int| 0 <= i < self.accepted.len() && #[trigger] self.accepted[i]@ == text,
        )
    }
}

impl Verdicts {
    /// The table of an engine that has accepted nothing yet.
    pub fn new() -> (v: Verdicts)
        ensures
            v@ == Set::<Seq<char>>::empty(),
    {
        let v = Verdicts { accepted: Vec::new() };
        assert(v@ =~= Set::<Seq<char>>::empty());
        v
    }

    /// Records that the engine accepted `text`.
    pub fn accept(&mut self, text: &str)
        ensures
            final(self)@ == old(self)@.insert(text@),
    {
        let entry = chars_of(text);
        self.accepted.push(entry);
        assert(self.accepted[self.accepted.len() - 1]@ == text@);
        assert forall|t: Seq<char>| self@.contains(t) <==> old(self)@.insert(text@).contains(
            t,
        ) by {
            if old(self)@.contains(t) {
                let i = choose|i: int|
                    0 <= i < old(self).accepted.len() && #[trigger] old(self).accepted[i]@ == t;
                assert(self.accepted[i]@ == t);
            }
            if self@.contains(t) {
                let i = choose|i: int|
                    0 <= i < self.accepted.len() && #[trigger] self.accepted[i]@ == t;
                if i < old(self).accepted.len() {
                    assert(old(self).accepted[i]@ == t);
                }
            }
        }
        assert(self@ =~= old(self)@.insert(text@));
    }

    /// Tells whether the engine accepted `text`.
    pub fn accepts(&self, text: &str) -> (r: bool)
        ensures
            r == self@.contains(text@),
    {
        let chars = chars_of(text);
        assert(chars@.subrange(0, chars.len() as int) =~= chars@);
        self.holds(&chars, 0, chars.len())
    }

    /// Tells whether the engine accepted the text in the window `lo..hi` of
    /// `buf`.
    pub fn holds(&self, buf: &Vec<char>, lo: usize, hi: usize) -> (r: bool)
        requires
            lo <= hi <= buf.len(),
        ensures
            r == self@.contains(buf@.subrange(lo as int, hi as int)),
    {
        let ghost text = buf@.subrange(lo as int, hi as int);
        let mut i: usize = 0;
        while i < self.accepted.len()
            invariant
                i <= self.accepted.len(),
                lo <= hi <= buf.len(),
                text == buf@.subrange(lo as int, hi as int),
                forall|k: int| 0 <= k < i ==> #[trigger] self.accepted[k]@ != text,
            decreases self.accepted.len() - i,
        {
            if same_text(&self.accepted[i], buf, lo, hi) {
                return true;
            }
            i = i + 1;
        }
        false
    }
}

/// Tells whether `entry` is the text in the window `lo..hi` of `buf`.
fn same_text(entry: &Vec<char>, buf: &Vec<char>, lo: usize, hi: usize) -> (r: bool)
    requires
        lo <= hi <= buf.len(),
    ensures
        r == (entry@ == buf@.subrange(lo as int, hi as int)),
{
    let ghost text = buf@.subrange(lo as int, hi as int);
    if entry.len() != hi - lo {
        return false;
    }
    let mut k: usize = 0;
    while k < entry.len()
        invariant
            k <= entry.len(),
            entry.len() == hi - lo,
            lo <= hi <= buf.len(),
            text == buf@.subrange(lo as int, hi as int),
            forall|m: int| 0 <= m < k ==> entry@[m] == text[m],
        decreases entry.len() - k,
    {
        if entry[k] != buf[lo + k] {
            assert(entry@[k as int] != text[k as int]);
            return false;
        }
        k = k + 1;
    }
    assert(entry@ =~= text);
    true
}

} // verus!
