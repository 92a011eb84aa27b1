//! The statement parser: a script becomes the sequence of its commands.

use vstd::prelude::*;
use crate::budget::{plan, plan_spec};
use crate::command::{all_well_formed, models, Command, Node};
use crate::laws::law_results_well_formed;
use crate::error::{Fault, ScparseError};
use crate::link::{join, join_spec, outcome};
use crate::split::{cut, lemma_split_shrinks, split_spec, Rule};
use crate::text::{chars_of, text_of};
use crate::verdicts::Verdicts;

verus! {

/// The commands of `text`, or the error that ends the parse, for an engine
/// that accepts the texts in `accepted`.
///
/// A text that holds no statement has no commands. Any other text begins with
/// one rule of the grammar, which leaves a head and a tail; both are parsed in
/// the same way, each with its share of the budget `j`, and the rule joins
/// their results.
pub open spec fn parse_spec(text: Seq<char>, j: u32, accepted: Set<Seq<char>>) -> Result<
    Seq<Node>,
    Fault,
>
    decreases text.len(),
    via parse_spec_decreases
{
    match split_spec(text) {
        Err(e) => Err(e),
        Ok(p) => if p.rule == Rule::Empty {
            Ok(Seq::empty())
        } else {
            join_spec(
                p.rule,
                p.label,
                parse_spec(p.head, plan_spec(p.rule, j).head, accepted),
                parse_spec(p.tail, plan_spec(p.rule, j).tail, accepted),
                accepted,
            )
        },
    }
}

#[via_fn]
proof fn parse_spec_decreases(text: Seq<char>, j: u32, accepted: Set<Seq<char>>) {
    lemma_split_shrinks(text);
}

/// The texts that a parse of `text` asks the engine about, in the order of
/// the script.
pub open spec fn candidates_spec(text: Seq<char>) -> Seq<Seq<char>>
    decreases text.len(),
    via candidates_spec_decreases
{
    match split_spec(text) {
        Err(_) => Seq::empty(),
        Ok(p) => if p.rule == Rule::Empty {
            Seq::empty()
        } else {
            asked(p.rule, p.label) + candidates_spec(p.head) + candidates_spec(p.tail)
        },
    }
}

#[via_fn]
proof fn candidates_spec_decreases(text: Seq<char>) {
    lemma_split_shrinks(text);
}

/// What a step under `rule` asks the engine about: its label where it is a
/// would-be expression, and nothing otherwise.
pub open spec fn asked(rule: Rule, label: Seq<char>) -> Seq<Seq<char>> {
    if rule == Rule::Candidate {
        seq![label]
    } else {
        Seq::empty()
    }
}

/// The texts of a sequence of strings.
pub open spec fn texts(strings: Seq<String>) -> Seq<Seq<char>> {
    Seq::new(strings.len(), |i: int| strings[i]@)
}

/// Parses `script` into its commands.
///
/// `verdicts` stands for the expression engine: a would-be expression becomes
/// a command where its trimmed text is in the table, and is passed over where
/// it is not. The budget `j` is shared out among the chunks as a driver with
/// workers would share it; the result does not depend on it. Everything runs
/// in the caller.
pub fn parse(script: &str, j: u32, verdicts: &Verdicts) -> (r: Result<Vec<Command>, ScparseError>)
    ensures
        outcome(r) == parse_spec(script@, j, verdicts@),
        r matches Ok(commands) ==> all_well_formed(models(commands@)),
{
    let buf = chars_of(script);
    assert(buf@.subrange(0, buf.len() as int) =~= script@);
    proof {
        law_results_well_formed(script@, j, verdicts@);
    }
    parse_range(&buf, 0, buf.len(), j, verdicts)
}

/// Parses the window `lo..hi` of `buf`.
fn parse_range(buf: &Vec<char>, lo: usize, hi: usize, j: u32, verdicts: &Verdicts) -> (r: Result<
    Vec<Command>,
    ScparseError,
>)
    requires
        lo <= hi <= buf.len(),
    ensures
        outcome(r) == parse_spec(buf@.subrange(lo as int, hi as int), j, verdicts@),
    decreases hi - lo,
{
    proof {
        lemma_split_shrinks(buf@.subrange(lo as int, hi as int));
    }
    let c = match cut(buf, lo, hi) {
        Err(e) => {
            return Err(e);
        },
        Ok(c) => c,
    };
    if c.rule == Rule::Empty {
        let none: Vec<Command> = Vec::new();
        assert(models(none@) =~= Seq::<Node>::empty());
        return Ok(none);
    }
    let shares = plan(c.rule, j);
    let head = match parse_range(buf, c.head.lo, c.head.hi, shares.head, verdicts) {
        Err(e) => {
            return Err(e);
        },
        Ok(head) => head,
    };
    let tail = parse_range(buf, c.tail.lo, c.tail.hi, shares.tail, verdicts);
    let label = text_of(buf, c.label.lo, c.label.hi);
    join(c.rule, label, Ok(head), tail, verdicts)
}

/// Lists the texts that a parse of `script` asks the engine about, in the
/// order of the script: what a table of verdicts for this script must answer.
pub fn candidates(script: &str) -> (r: Vec<String>)
    ensures
        texts(r@) == candidates_spec(script@),
{
    let buf = chars_of(script);
    assert(buf@.subrange(0, buf.len() as int) =~= script@);
    let mut found: Vec<String> = Vec::new();
    assert(texts(found@) =~= Seq::<Seq<char>>::empty());
    collect(&buf, 0, buf.len(), &mut found);
    assert(Seq::<Seq<char>>::empty() + candidates_spec(script@) =~= candidates_spec(script@));
    found
}

/// Adds to `found` the texts that a parse of the window `lo..hi` of `buf` asks
/// the engine about.
fn collect(buf: &Vec<char>, lo: usize, hi: usize, found: &mut Vec<String>)
    requires
        lo <= hi <= buf.len(),
    ensures
        texts(final(found)@) == texts(old(found)@) + candidates_spec(
            buf@.subrange(lo as int, hi as int),
        ),
    decreases hi - lo,
{
    proof {
        lemma_split_shrinks(buf@.subrange(lo as int, hi as int));
    }
    let ghost before = texts(found@);
    match cut(buf, lo, hi) {
        Err(_) => {
            assert(before + Seq::<Seq<char>>::empty() =~= before);
        },
        Ok(c) => {
            if c.rule == Rule::Empty {
                assert(before + Seq::<Seq<char>>::empty() =~= before);
            } else {
                let ghost p = c.pieces(buf@);
                if c.rule == Rule::Candidate {
                    found.push(text_of(buf, c.label.lo, c.label.hi));
                }
                assert(texts(found@) =~= before + asked(p.rule, p.label));
                collect(buf, c.head.lo, c.head.hi, found);
                collect(buf, c.tail.lo, c.tail.hi, found);
                assert(before + asked(p.rule, p.label) + candidates_spec(p.head) + candidates_spec(
                    p.tail,
                ) =~= before + (asked(p.rule, p.label) + candidates_spec(p.head) + candidates_spec(
                    p.tail,
                )));
            }
        },
    }
}

} // verus!
