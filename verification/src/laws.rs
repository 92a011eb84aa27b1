//! What holds of every parse.

use vstd::prelude::*;
use crate::budget::plan_spec;
use crate::command::{all_well_formed, Node};
use crate::error::Fault;
use crate::link::{conditional, define_spec, is_arm, join_spec};
use crate::parser::{asked, candidates_spec, parse_spec};
use crate::split::{after, lemma_comment_rule, lemma_split_shrinks, split_spec, Rule};
use crate::text::{closing, first_stop, lemma_trim, trim, Stop};

verus! {

/// The budget never shows in the result: with any two budgets a script
/// parses to the same commands, or fails with the same error.
pub proof fn law_budget_independence(
    text: Seq<char>,
    j1: u32,
    j2: u32,
    accepted: Set<Seq<char>>,
)
    ensures
        parse_spec(text, j1, accepted) == parse_spec(text, j2, accepted),
    decreases text.len(),
{
    lemma_split_shrinks(text);
    if let Ok(p) = split_spec(text) {
        if p.rule != Rule::Empty {
            law_budget_independence(
                p.head,
                plan_spec(p.rule, j1).head,
                plan_spec(p.rule, j2).head,
                accepted,
            );
            law_budget_independence(
                p.tail,
                plan_spec(p.rule, j1).tail,
                plan_spec(p.rule, j2).tail,
                accepted,
            );
        }
    }
}

/// Whether two engines give the same answer about each of `asked`.
pub open spec fn agree(a: Set<Seq<char>>, b: Set<Seq<char>>, asked: Seq<Seq<char>>) -> bool {
    forall|i: int|
        0 <= i < asked.len() ==> (a.contains(#[trigger] asked[i]) <==> b.contains(asked[i]))
}

/// A parse reads of the engine only its answers about the candidates of the
/// script: two engines that agree on them give the same result.
pub proof fn law_candidates_suffice(
    text: Seq<char>,
    j: u32,
    a: Set<Seq<char>>,
    b: Set<Seq<char>>,
)
    requires
        agree(a, b, candidates_spec(text)),
    ensures
        parse_spec(text, j, a) == parse_spec(text, j, b),
    decreases text.len(),
{
    lemma_split_shrinks(text);
    if let Ok(p) = split_spec(text) {
        if p.rule != Rule::Empty {
            let own = asked(p.rule, p.label);
            let of_head = candidates_spec(p.head);
            let of_tail = candidates_spec(p.tail);
            let all = candidates_spec(text);
            assert(all == own + of_head + of_tail);
            assert forall|i: int| 0 <= i < of_head.len() implies (a.contains(
                #[trigger] of_head[i],
            ) <==> b.contains(of_head[i])) by {
                assert(all[own.len() + i] == of_head[i]);
            }
            assert forall|i: int| 0 <= i < of_tail.len() implies (a.contains(
                #[trigger] of_tail[i],
            ) <==> b.contains(of_tail[i])) by {
                assert(all[own.len() + of_head.len() + i] == of_tail[i]);
            }
            if p.rule == Rule::Candidate {
                assert(all[0] == p.label);
            }
            law_candidates_suffice(p.head, plan_spec(p.rule, j).head, a, b);
            law_candidates_suffice(p.tail, plan_spec(p.rule, j).tail, a, b);
        }
    }
}

/// Every command that a parse returns is well formed: a cascade goes on with
/// an `Elif`, an `Else` or `NoOp` only, and a definition of a bare expression
/// has the simple form.
pub proof fn law_results_well_formed(text: Seq<char>, j: u32, accepted: Set<Seq<char>>)
    ensures
        parse_spec(text, j, accepted) matches Ok(nodes) ==> all_well_formed(nodes),
    decreases text.len(),
{
    lemma_split_shrinks(text);
    if let Ok(p) = split_spec(text) {
        if p.rule != Rule::Empty {
            law_results_well_formed(p.head, plan_spec(p.rule, j).head, accepted);
            law_results_well_formed(p.tail, plan_spec(p.rule, j).tail, accepted);
            let head = parse_spec(p.head, plan_spec(p.rule, j).head, accepted);
            let tail = parse_spec(p.tail, plan_spec(p.rule, j).tail, accepted);
            lemma_join_well_formed(p.rule, p.label, head, tail, accepted);
        }
    }
}

/// A well-formed command in front of well-formed commands, some of which may
/// have been left out at the beginning, makes well-formed commands.
proof fn lemma_in_front(first: Node, rest: Seq<Node>, skipped: int)
    requires
        first.well_formed(),
        all_well_formed(rest),
        0 <= skipped <= rest.len(),
    ensures
        all_well_formed(seq![first] + rest.skip(skipped)),
{
    let nodes = seq![first] + rest.skip(skipped);
    assert forall|i: int| 0 <= i < nodes.len() implies (#[trigger] nodes[i]).well_formed() by {
        if i > 0 {
            assert(nodes[i] == rest[i - 1 + skipped]);
        }
    }
}

/// Joining well-formed results gives well-formed results.
pub proof fn lemma_join_well_formed(
    rule: Rule,
    label: Seq<char>,
    head: Result<Seq<Node>, Fault>,
    tail: Result<Seq<Node>, Fault>,
    accepted: Set<Seq<char>>,
)
    requires
        head matches Ok(nodes) ==> all_well_formed(nodes),
        tail matches Ok(nodes) ==> all_well_formed(nodes),
    ensures
        join_spec(rule, label, head, tail, accepted) matches Ok(nodes) ==> all_well_formed(nodes),
{
    if join_spec(rule, label, head, tail, accepted) is Ok {
        let first = head->Ok_0;
        let rest = tail->Ok_0;
        assert(rest.skip(0) =~= rest);
        assert(Node::NoOp.well_formed());
        match rule {
            Rule::Block => {
                lemma_in_front(Node::Block(first), rest, 0);
            },
            Rule::If | Rule::Elif => {
                if rest.len() >= 3 && is_arm(rest[2]) {
                    lemma_in_front(conditional(rule, rest[0], rest[1], rest[2]), rest, 3);
                } else {
                    lemma_in_front(conditional(rule, rest[0], rest[1], Node::NoOp), rest, 2);
                }
            },
            Rule::Else => {
                lemma_in_front(Node::Else(Box::new(rest[0])), rest, 1);
            },
            Rule::While => {
                lemma_in_front(
                    Node::While { condition: Box::new(rest[0]), body: Box::new(rest[1]) },
                    rest,
                    2,
                );
            },
            Rule::Assign => {
                lemma_in_front(define_spec(label, first[0]), rest, 0);
            },
            Rule::Candidate => {
                lemma_in_front(Node::Expression(label), rest, 0);
            },
            Rule::Comment | Rule::Empty => {},
        }
    }
}

/// White space around a script is no part of it: the script parses as its
/// trimmed text does.
pub proof fn law_trimming_changes_nothing(text: Seq<char>, j: u32, accepted: Set<Seq<char>>)
    ensures
        parse_spec(trim(text), j, accepted) == parse_spec(text, j, accepted),
{
    lemma_trim(text);
    assert(split_spec(trim(text)) == split_spec(text));
}

/// A text of nothing but white space parses to no commands.
pub proof fn law_blank_parses_to_nothing(text: Seq<char>, j: u32, accepted: Set<Seq<char>>)
    requires
        trim(text).len() == 0,
    ensures
        parse_spec(text, j, accepted) == Ok::<Seq<Node>, Fault>(Seq::empty()),
{
}

/// A comment is no statement: a script that begins with `#` parses as what
/// follows the first line does.
pub proof fn law_comment_is_skipped(text: Seq<char>, j: u32, accepted: Set<Seq<char>>)
    requires
        trim(text).len() > 0,
        trim(text)[0] == '#',
    ensures
        parse_spec(text, j, accepted) == parse_spec(
            after(trim(text), first_stop(trim(text), 0, Stop::Newline)),
            j,
            accepted,
        ),
{
    lemma_comment_rule(text);
    assert(trim(Seq::<char>::empty()) == Seq::<char>::empty());
    law_blank_parses_to_nothing(Seq::empty(), plan_spec(Rule::Comment, j).head, accepted);
}

/// A block that is never closed ends the parse: whatever else the script
/// holds, the error is `BracketNotClosed`.
pub proof fn law_unclosed_block_fails(text: Seq<char>, j: u32, accepted: Set<Seq<char>>)
    requires
        trim(text).len() > 0,
        trim(text)[0] == '{',
        closing(trim(text), 1, 0) is None,
    ensures
        parse_spec(text, j, accepted) == Err::<Seq<Node>, Fault>(Fault::BracketNotClosed),
{
}

/// An assignment with nothing but white space on its right ends the parse
/// with `NoRightHandSide` of the name, whatever follows the assignment.
pub proof fn law_blank_right_hand_side_fails(text: Seq<char>, j: u32, accepted: Set<Seq<char>>)
    requires
        split_spec(text) matches Ok(p) && p.rule == Rule::Assign && trim(p.head).len() == 0,
    ensures
        parse_spec(text, j, accepted) == Err::<Seq<Node>, Fault>(
            Fault::NoRightHandSide(split_spec(text)->Ok_0.label),
        ),
{
    law_blank_parses_to_nothing(split_spec(text)->Ok_0.head, 1, accepted);
}

/// Whether `text` holds nothing but white space and comments.
pub open spec fn idle(text: Seq<char>) -> bool
    decreases text.len(),
    via idle_decreases
{
    let s = trim(text);
    s.len() == 0 || (s[0] == '#' && idle(after(s, first_stop(s, 0, Stop::Newline))))
}

#[via_fn]
proof fn idle_decreases(text: Seq<char>) {
    lemma_split_shrinks(text);
    let s = trim(text);
    if s.len() > 0 && s[0] == '#' {
        lemma_comment_rule(text);
    }
}

/// White space and comments are no statements: a script that holds nothing
/// else parses to no commands, and never to an error.
pub proof fn law_idle_is_empty(text: Seq<char>, j: u32, accepted: Set<Seq<char>>)
    requires
        idle(text),
    ensures
        parse_spec(text, j, accepted) == Ok::<Seq<Node>, Fault>(Seq::empty()),
    decreases text.len(),
{
    lemma_split_shrinks(text);
    let s = trim(text);
    if s.len() > 0 {
        law_comment_is_skipped(text, j, accepted);
        lemma_comment_rule(text);
        law_idle_is_empty(after(s, first_stop(s, 0, Stop::Newline)), j, accepted);
    }
}

} // verus!
