//! The tree of commands that a script parses to, and how it is printed.

use vstd::prelude::*;
use vstd::string::StringExecFns;

verus! {

/// A command as a mathematical value: the view of [`Command`].
pub enum Node {
    /// A name bound to a command that is no bare expression.
    Define(Seq<char>, Box<Node>),
    /// A name bound to an expression, given by its text.
    DefineSimple(Seq<char>, Seq<char>),
    /// A bare expression, given by its text.
    Expression(Seq<char>),
    /// The first arm of a cascade.
    If { condition: Box<Node>, body: Box<Node>, continuation: Box<Node> },
    /// A further conditional arm of a cascade.
    Elif { condition: Box<Node>, body: Box<Node>, continuation: Box<Node> },
    /// The last arm of a cascade.
    Else(Box<Node>),
    /// A loop.
    While { condition: Box<Node>, body: Box<Node> },
    /// A scope with its statements in source order.
    Block(Seq<Node>),
    /// The end of a cascade that has no further arm.
    NoOp,
}

/// One parsed statement.
///
/// An expression is kept as the text that the expression engine accepted: the
/// parser never looks inside an expression.
#[allow(non_camel_case_types)]
#[derive(Debug, PartialEq, Eq)]
pub enum Command {
    /// `name = value`, where the value is no bare expression.
    DEFINE(String, Box<Command>),
    /// `name = expression`.
    DEFINE_SIMPLE(String, String),
    /// A bare expression.
    EXPRESSION(String),
    /// `if condition body`, then the rest of the cascade: an `ELIF`, an `ELSE`
    /// or `DO_NOTHING`.
    IF { expression: Box<Command>, inside: Box<Command>, or: Box<Command> },
    /// `elif condition body`, then the rest of the cascade.
    ELIF { expression: Box<Command>, inside: Box<Command>, or: Box<Command> },
    /// `else body`.
    ELSE(Box<Command>),
    /// `while condition body`.
    WHILE { expression: Box<Command>, inside: Box<Command> },
    /// `{ ... }`, with its statements in source order.
    BLOCK(Vec<Command>),
    /// Ends a cascade that has no further arm.
    DO_NOTHING,
}

impl Command {
    /// The mathematical value of this command.
    pub open spec fn model(&self) -> Node
        decreases self,
    {
        match self {
            Command::DEFINE(name, value) => Node::Define(name@, Box::new(value.model())),
            Command::DEFINE_SIMPLE(name, text) => Node::DefineSimple(name@, text@),
            Command::EXPRESSION(text) => Node::Expression(text@),
            Command::IF { expression, inside, or } => Node::If {
                condition: Box::new(expression.model()),
                body: Box::new(inside.model()),
                continuation: Box::new(or.model()),
            },
            Command::ELIF { expression, inside, or } => Node::Elif {
                condition: Box::new(expression.model()),
                body: Box::new(inside.model()),
                continuation: Box::new(or.model()),
            },
            Command::ELSE(inside) => Node::Else(Box::new(inside.model())),
            Command::WHILE { expression, inside } => Node::While {
                condition: Box::new(expression.model()),
                body: Box::new(inside.model()),
            },
            Command::BLOCK(children) => Node::Block(
                Seq::new(
                    children.len() as nat,
                    |i: int|
                        if 0 <= i < children.len() {
                            children[i].model()
                        } else {
                            Node::NoOp
                        },
                ),
            ),
            Command::DO_NOTHING => Node::NoOp,
        }
    }
}

impl View for Command {
    type V = Node;

    open spec fn view(&self) -> Node {
        self.model()
    }
}

/// The mathematical values of a sequence of commands, in the same order.
pub open spec fn models(commands: Seq<Command>) -> Seq<Node> {
    Seq::new(commands.len(), |i: int| commands[i]@)
}

/// One level of indentation.
pub open spec fn indent() -> Seq<char> {
    "    "@
}

impl Node {
    /// The printed form of this command behind the indentation `pad`.
    ///
    /// Every command ends its last line. A block stands one level deeper than
    /// `pad` and its statements two levels deeper. A condition is printed as a
    /// command of its own, without indentation, inside the line of its `IF`,
    /// `ELIF` or `WHILE`.
    pub open spec fn render(self, pad: Seq<char>) -> Seq<char>
        decreases self, 0nat,
    {
        match self {
            Node::Block(children) => pad + indent() + "{"@ + "\n"@ + render_first(
                children,
                children.len(),
                pad + indent() + indent(),
            ) + (pad + indent()) + "}"@ + "\n"@,
            Node::Define(name, value) => pad + "DEFINE "@ + name + " as"@ + "\n"@ + value.render(
                pad + indent(),
            ) + "\n"@,
            Node::DefineSimple(name, text) => pad + "DEFINE "@ + name + " as "@ + text + "\n"@,
            Node::If { condition, body, continuation } => pad + "IF "@ + condition.render(
                Seq::empty(),
            ) + " "@ + "\n"@ + body.render(pad + indent()) + continuation.render(pad) + "\n"@,
            Node::Elif { condition, body, continuation } => pad + "ELIF "@ + condition.render(
                Seq::empty(),
            ) + " "@ + "\n"@ + body.render(pad + indent()) + continuation.render(pad) + "\n"@,
            Node::Else(body) => pad + "ELSE"@ + "\n"@ + body.render(pad + indent()) + "\n"@,
            Node::Expression(text) => pad + "EXP "@ + text + "\n"@,
            Node::While { condition, body } => pad + "WHILE "@ + condition.render(Seq::empty())
                + " "@ + "\n"@ + body.render(pad + indent()) + "\n"@,
            Node::NoOp => pad + "#DO_NOTHNG"@ + "\n"@,
        }
    }
}

impl Node {
    /// Whether this command has the shape that the parser gives its results:
    /// a cascade goes on with an `Elif`, an `Else` or `NoOp` and with nothing
    /// else, and the nested form of a definition holds no bare expression.
    pub open spec fn well_formed(self) -> bool
        decreases self,
    {
        match self {
            Node::Define(_, value) => value.well_formed() && !(*value is Expression),
            Node::If { condition, body, continuation } | Node::Elif {
                condition,
                body,
                continuation,
            } => {
                &&& condition.well_formed()
                &&& body.well_formed()
                &&& continuation.well_formed()
                &&& (*continuation is Elif || *continuation is Else || *continuation is NoOp)
            },
            Node::Else(body) => body.well_formed(),
            Node::While { condition, body } => condition.well_formed() && body.well_formed(),
            Node::Block(children) => forall|i: int|
                0 <= i < children.len() ==> (#[trigger] children[i]).well_formed(),
            Node::DefineSimple(_, _) | Node::Expression(_) | Node::NoOp => true,
        }
    }
}

/// Whether each of `nodes` is well formed.
pub open spec fn all_well_formed(nodes: Seq<Node>) -> bool {
    forall|i: int| 0 <= i < nodes.len() ==> (#[trigger] nodes[i]).well_formed()
}

/// The printed forms of the first `count` of `nodes`, one after the other,
/// each behind the indentation `pad`.
pub open spec fn render_first(nodes: Seq<Node>, count: nat, pad: Seq<char>) -> Seq<char>
    decreases nodes, count,
{
    if count == 0 || count > nodes.len() {
        Seq::empty()
    } else {
        render_first(nodes, (count - 1) as nat, pad) + nodes[count - 1].render(pad)
    }
}

/// The string without characters is the empty sequence.
pub proof fn lemma_empty_text()
    ensures
        ""@ == Seq::<char>::empty(),
{
    reveal_strlit("");
    assert(""@ =~= Seq::<char>::empty());
}

impl Command {
    /// Prints this command as a tree, one node to a line.
    pub fn to_string(&self) -> (s: String)
        ensures
            s@ == self@.render(Seq::empty()),
    {
        proof {
            lemma_empty_text();
        }
        self.render("")
    }

    /// Prints this command behind the indentation `pad`.
    pub fn render(&self, pad: &str) -> (s: String)
        ensures
            s@ == self@.render(pad@),
        decreases self,
    {
        proof {
            lemma_empty_text();
        }
        let mut deeper = pad.to_owned();
        deeper.append("    ");
        let mut s = pad.to_owned();
        match self {
            Command::BLOCK(children) => {
                let mut inner = deeper.clone();
                inner.append("    ");
                let mut body = String::new();
                let mut i: usize = 0;
                while i < children.len()
                    invariant
                        i <= children.len(),
                        self == Command::BLOCK(*children),
                        inner@ == pad@ + indent() + indent(),
                        self@ matches Node::Block(nodes) && nodes.len() == children.len()
                            && body@ == render_first(nodes, i as nat, inner@),
                    decreases children.len() - i,
                {
                    let line = children[i].render(inner.as_str());
                    body.append(line.as_str());
                    i = i + 1;
                }
                s.append("    ");
                s.append("{");
                s.append("\n");
                s.append(body.as_str());
                s.append(deeper.as_str());
                s.append("}");
            },
            Command::DEFINE(name, value) => {
                s.append("DEFINE ");
                s.append(name.as_str());
                s.append(" as");
                s.append("\n");
                s.append(value.render(deeper.as_str()).as_str());
            },
            Command::DEFINE_SIMPLE(name, text) => {
                s.append("DEFINE ");
                s.append(name.as_str());
                s.append(" as ");
                s.append(text.as_str());
            },
            Command::IF { expression, inside, or } => {
                s.append("IF ");
                s.append(expression.render("").as_str());
                s.append(" ");
                s.append("\n");
                s.append(inside.render(deeper.as_str()).as_str());
                s.append(or.render(pad).as_str());
            },
            Command::ELIF { expression, inside, or } => {
                s.append("ELIF ");
                s.append(expression.render("").as_str());
                s.append(" ");
                s.append("\n");
                s.append(inside.render(deeper.as_str()).as_str());
                s.append(or.render(pad).as_str());
            },
            Command::ELSE(inside) => {
                s.append("ELSE");
                s.append("\n");
                s.append(inside.render(deeper.as_str()).as_str());
            },
            Command::EXPRESSION(text) => {
                s.append("EXP ");
                s.append(text.as_str());
            },
            Command::WHILE { expression, inside } => {
                s.append("WHILE ");
                s.append(expression.render("").as_str());
                s.append(" ");
                s.append("\n");
                s.append(inside.render(deeper.as_str()).as_str());
            },
            Command::DO_NOTHING => {
                s.append("#DO_NOTHNG");
            },
        }
        s.append("\n");
        s
    }
}

} // verus!
