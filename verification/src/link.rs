//! How the results of the two chunks of a step become the statements of the
//! whole: a block in front of what follows it, a cascade linked arm by arm, a
//! definition in its simple or its nested form.

use vstd::prelude::*;
use crate::command::{models, Command, Node};
use crate::error::{Fault, ScparseError};
use crate::split::Rule;
use crate::verdicts::Verdicts;

verus! {

/// What a parse returns, as a mathematical value.
pub open spec fn outcome(r: Result<Vec<Command>, ScparseError>) -> Result<Seq<Node>, Fault> {
    match r {
        Ok(commands) => Ok(models(commands@)),
        Err(e) => Err(e@),
    }
}

/// Whether `node` continues a cascade: an `Elif` or an `Else`.
pub open spec fn is_arm(node: Node) -> bool {
    node is Elif || node is Else
}

/// The message of the error for a keyword that lacks what must follow it.
pub open spec fn incomplete(rule: Rule) -> Seq<char> {
    match rule {
        Rule::If => "if without a condition and a body"@,
        Rule::Elif => "elif without a condition and a body"@,
        Rule::Else => "else without a body"@,
        _ => "while without a condition and a body"@,
    }
}

/// The conditional node of `rule`, which is `If` or `Elif`.
pub open spec fn conditional(rule: Rule, condition: Node, body: Node, continuation: Node) -> Node {
    if rule == Rule::If {
        Node::If {
            condition: Box::new(condition),
            body: Box::new(body),
            continuation: Box::new(continuation),
        }
    } else {
        Node::Elif {
            condition: Box::new(condition),
            body: Box::new(body),
            continuation: Box::new(continuation),
        }
    }
}

/// The statements of `if` or `elif` followed by `nodes`.
///
/// The first node is the condition and the second the body. The third
/// continues the cascade where it is an `Elif` or an `Else`; otherwise the
/// cascade ends in `NoOp` and the third node stays a statement of its own.
/// With fewer than two nodes the keyword is incomplete.
pub open spec fn cascade_spec(rule: Rule, nodes: Seq<Node>) -> Result<Seq<Node>, Fault> {
    if nodes.len() < 2 {
        Err(Fault::Unknown(incomplete(rule)))
    } else if nodes.len() >= 3 && is_arm(nodes[2]) {
        Ok(seq![conditional(rule, nodes[0], nodes[1], nodes[2])] + nodes.skip(3))
    } else {
        Ok(seq![conditional(rule, nodes[0], nodes[1], Node::NoOp)] + nodes.skip(2))
    }
}

/// The statements of `else` followed by `nodes`: the first node is the body,
/// the others stay statements of their own.
pub open spec fn otherwise_spec(nodes: Seq<Node>) -> Result<Seq<Node>, Fault> {
    if nodes.len() < 1 {
        Err(Fault::Unknown(incomplete(Rule::Else)))
    } else {
        Ok(seq![Node::Else(Box::new(nodes[0]))] + nodes.skip(1))
    }
}

/// The statements of `while` followed by `nodes`: the first node is the
/// condition, the second the body, the others stay statements of their own.
pub open spec fn repeat_spec(nodes: Seq<Node>) -> Result<Seq<Node>, Fault> {
    if nodes.len() < 2 {
        Err(Fault::Unknown(incomplete(Rule::While)))
    } else {
        Ok(
            seq![Node::While { condition: Box::new(nodes[0]), body: Box::new(nodes[1]) }]
                + nodes.skip(2),
        )
    }
}

/// The definition of `name` as `value`: the simple form where the value is a
/// bare expression, the nested form otherwise.
pub open spec fn define_spec(name: Seq<char>, value: Node) -> Node {
    match value {
        Node::Expression(text) => Node::DefineSimple(name, text),
        _ => Node::Define(name, Box::new(value)),
    }
}

/// The statements of a step under `rule`, from the results of its two chunks.
///
/// An error of the head comes first, then an assignment without a right-hand
/// side, then an error of the tail: which chunk was finished first makes no
/// difference. The statements of the head stand before those of the tail.
pub open spec fn join_spec(
    rule: Rule,
    label: Seq<char>,
    head: Result<Seq<Node>, Fault>,
    tail: Result<Seq<Node>, Fault>,
    accepted: Set<Seq<char>>,
) -> Result<Seq<Node>, Fault> {
    match head {
        Err(e) => Err(e),
        Ok(first) => if rule == Rule::Assign && first.len() == 0 {
            Err(Fault::NoRightHandSide(label))
        } else {
            match tail {
                Err(e) => Err(e),
                Ok(rest) => match rule {
                    Rule::Empty => Ok(Seq::empty()),
                    Rule::Block => Ok(seq![Node::Block(first)] + rest),
                    Rule::If | Rule::Elif => cascade_spec(rule, rest),
                    Rule::Else => otherwise_spec(rest),
                    Rule::While => repeat_spec(rest),
                    Rule::Comment => Ok(rest),
                    Rule::Assign => Ok(seq![define_spec(label, first[0])] + rest),
                    Rule::Candidate => if accepted.contains(label) {
                        Ok(seq![Node::Expression(label)] + rest)
                    } else {
                        Ok(rest)
                    },
                },
            }
        },
    }
}

/// Tells whether `command` continues a cascade.
pub fn continues(command: &Command) -> (r: bool)
    ensures
        r == is_arm(command@),
{
    match command {
        Command::ELIF { .. } => true,
        Command::ELSE(_) => true,
        _ => false,
    }
}

/// The error for a keyword that lacks what must follow it.
fn lacking(rule: Rule) -> (e: ScparseError)
    ensures
        e@ == Fault::Unknown(incomplete(rule)),
{
    match rule {
        Rule::If => ScparseError::UNKNOWN("if without a condition and a body".to_owned()),
        Rule::Elif => ScparseError::UNKNOWN("elif without a condition and a body".to_owned()),
        Rule::Else => ScparseError::UNKNOWN("else without a body".to_owned()),
        _ => ScparseError::UNKNOWN("while without a condition and a body".to_owned()),
    }
}

/// Puts `first` in front of `rest`.
fn prepend(first: Command, rest: Vec<Command>) -> (r: Vec<Command>)
    ensures
        models(r@) == seq![first@] + models(rest@),
{
    let mut r = rest;
    r.insert(0, first);
    assert(models(r@) =~= seq![first@] + models(rest@));
    r
}

/// Takes the first command out of `commands`.
fn take_first(commands: &mut Vec<Command>) -> (first: Command)
    requires
        old(commands).len() > 0,
    ensures
        first@ == models(old(commands)@)[0],
        final(commands).len() == old(commands).len() - 1,
        models(final(commands)@) == models(old(commands)@).skip(1),
{
    let first = commands.remove(0);
    assert(models(commands@) =~= models(old(commands)@).skip(1));
    first
}

/// Links `if` or `elif` with the statements that follow it.
pub fn cascade(rule: Rule, nodes: Vec<Command>) -> (r: Result<Vec<Command>, ScparseError>)
    requires
        rule == Rule::If || rule == Rule::Elif,
    ensures
        outcome(r) == cascade_spec(rule, models(nodes@)),
{
    if nodes.len() < 2 {
        return Err(lacking(rule));
    }
    let ghost all = models(nodes@);
    let mut rest = nodes;
    let condition = take_first(&mut rest);
    let body = take_first(&mut rest);
    assert(body@ == all[1]);
    assert(models(rest@) =~= all.skip(2));
    assert(rest.len() > 0 ==> rest[0]@ == all[2]) by {
        if rest.len() > 0 {
            assert(models(rest@)[0] == rest[0]@);
        }
    }
    let or = if rest.len() > 0 && continues(&rest[0]) {
        let arm = take_first(&mut rest);
        assert(models(rest@) =~= all.skip(3));
        arm
    } else {
        Command::DO_NOTHING
    };
    let linked = match rule {
        Rule::If => Command::IF {
            expression: Box::new(condition),
            inside: Box::new(body),
            or: Box::new(or),
        },
        _ => Command::ELIF {
            expression: Box::new(condition),
            inside: Box::new(body),
            or: Box::new(or),
        },
    };
    assert(linked@ == conditional(rule, condition@, body@, or@));
    Ok(prepend(linked, rest))
}

/// Links `else` with the statements that follow it.
pub fn otherwise(nodes: Vec<Command>) -> (r: Result<Vec<Command>, ScparseError>)
    ensures
        outcome(r) == otherwise_spec(models(nodes@)),
{
    if nodes.len() < 1 {
        return Err(lacking(Rule::Else));
    }
    let mut rest = nodes;
    let body = take_first(&mut rest);
    Ok(prepend(Command::ELSE(Box::new(body)), rest))
}

/// Links `while` with the statements that follow it.
pub fn repeat(nodes: Vec<Command>) -> (r: Result<Vec<Command>, ScparseError>)
    ensures
        outcome(r) == repeat_spec(models(nodes@)),
{
    if nodes.len() < 2 {
        return Err(lacking(Rule::While));
    }
    let ghost all = models(nodes@);
    let mut rest = nodes;
    let condition = take_first(&mut rest);
    let body = take_first(&mut rest);
    assert(models(rest@) =~= all.skip(2));
    Ok(
        prepend(
            Command::WHILE { expression: Box::new(condition), inside: Box::new(body) },
            rest,
        ),
    )
}

/// Binds `name` to `value`.
pub fn define(name: String, value: Command) -> (r: Command)
    ensures
        r@ == define_spec(name@, value@),
{
    match value {
        Command::EXPRESSION(text) => Command::DEFINE_SIMPLE(name, text),
        other => Command::DEFINE(name, Box::new(other)),
    }
}

/// Wraps `children` into one block.
pub fn block(children: Vec<Command>) -> (r: Command)
    ensures
        r@ == Node::Block(models(children@)),
{
    let r = Command::BLOCK(children);
    assert(r@->Block_0 =~= models(children@));
    r
}

/// Joins the results of the two chunks of a step under `rule`.
///
/// `label` is the label of the step, and `verdicts` tells whether the engine
/// accepted it where it is a would-be expression. A rule without a head takes
/// `Ok` of no statements for it.
pub fn join(
    rule: Rule,
    label: String,
    head: Result<Vec<Command>, ScparseError>,
    tail: Result<Vec<Command>, ScparseError>,
    verdicts: &Verdicts,
) -> (r: Result<Vec<Command>, ScparseError>)
    ensures
        outcome(r) == join_spec(rule, label@, outcome(head), outcome(tail), verdicts@),
{
    let mut first = match head {
        Err(e) => {
            return Err(e);
        },
        Ok(first) => first,
    };
    if rule == Rule::Assign && first.len() == 0 {
        return Err(ScparseError::NoRightHandSide(label));
    }
    let rest = match tail {
        Err(e) => {
            return Err(e);
        },
        Ok(rest) => rest,
    };
    match rule {
        Rule::Empty => {
            let none: Vec<Command> = Vec::new();
            assert(models(none@) =~= Seq::<Node>::empty());
            Ok(none)
        },
        Rule::Block => Ok(prepend(block(first), rest)),
        Rule::If | Rule::Elif => cascade(rule, rest),
        Rule::Else => otherwise(rest),
        Rule::While => repeat(rest),
        Rule::Comment => Ok(rest),
        Rule::Assign => {
            let value = take_first(&mut first);
            Ok(prepend(define(label, value), rest))
        },
        Rule::Candidate => {
            if verdicts.accepts(label.as_str()) {
                Ok(prepend(Command::EXPRESSION(label), rest))
            } else {
                Ok(rest)
            }
        },
    }
}

} // verus!
