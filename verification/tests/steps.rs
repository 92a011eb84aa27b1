use scparse::link::{block, cascade, continues, define, otherwise, repeat};
use scparse::{get_block, join, plan, split, Command, Plan, Rule, ScparseError, Split, Verdicts};

fn exp(text: &str) -> Command {
    Command::EXPRESSION(text.to_string())
}

fn pieces(rule: Rule, label: &str, head: &str, tail: &str) -> Result<Split, ScparseError> {
    Ok(Split {
        rule,
        label: label.to_string(),
        head: head.to_string(),
        tail: tail.to_string(),
    })
}

fn accepting(texts: &[&str]) -> Verdicts {
    let mut verdicts = Verdicts::new();
    for text in texts {
        verdicts.accept(text);
    }
    verdicts
}

#[test]
fn get_block_splits_at_the_matching_brace() {
    assert_eq!(
        get_block(" a { b } c } d"),
        Ok((" a { b } c ", " d"))
    );
    assert_eq!(get_block("}"), Ok(("", "")));
    assert_eq!(get_block("é}ü"), Ok(("é", "ü")));
    assert_eq!(get_block(" a { b }"), Err(ScparseError::BracketNotClosed));
    assert_eq!(get_block(""), Err(ScparseError::BracketNotClosed));
}

#[test]
fn split_tries_the_rules_in_order() {
    assert_eq!(split("   "), pieces(Rule::Empty, "", "", ""));
    assert_eq!(split(" { a } b "), pieces(Rule::Block, "", " a ", " b"));
    assert_eq!(split("if x { y }"), pieces(Rule::If, "", "", " x { y }"));
    assert_eq!(split("elif x"), pieces(Rule::Elif, "", "", " x"));
    assert_eq!(split("else { y }"), pieces(Rule::Else, "", "", " { y }"));
    assert_eq!(split("while x"), pieces(Rule::While, "", "", " x"));
    assert_eq!(split("# a\nb"), pieces(Rule::Comment, "", "", "b"));
    assert_eq!(split("# a"), pieces(Rule::Comment, "", "", ""));
    assert_eq!(split(" a = b = 1 ; c"), pieces(Rule::Assign, "a", " b = 1 ", " c"));
    assert_eq!(split("x + 1 { y }"), pieces(Rule::Candidate, "x + 1", "", "{ y }"));
    assert_eq!(split("x # y"), pieces(Rule::Candidate, "x", "", "# y"));
    assert_eq!(split("x\ny"), pieces(Rule::Candidate, "x", "", "y"));
    assert_eq!(split(";x"), pieces(Rule::Candidate, "", "", "x"));
    assert_eq!(split("{ a"), Err(ScparseError::BracketNotClosed));
}

#[test]
fn keyword_is_a_prefix_and_no_word() {
    assert_eq!(split("iffy = 3"), pieces(Rule::If, "", "", "fy = 3"));
    assert_eq!(split("elsewhere"), pieces(Rule::Else, "", "", "where"));
}

#[test]
fn plan_shares_the_budget_out() {
    let forked = Plan { parallel: true, head: 3, tail: 3 };
    assert_eq!(plan(Rule::Block, 4), forked);
    assert_eq!(plan(Rule::Block, 2), Plan { parallel: true, head: 1, tail: 1 });
    assert_eq!(plan(Rule::Block, 1), Plan { parallel: false, head: 1, tail: 1 });
    assert_eq!(plan(Rule::Block, 0), Plan { parallel: false, head: 1, tail: 1 });
    assert_eq!(plan(Rule::Assign, 4), Plan { parallel: true, head: 1, tail: 3 });
    assert_eq!(plan(Rule::Assign, 1), Plan { parallel: false, head: 1, tail: 1 });
    assert_eq!(plan(Rule::Candidate, 4), Plan { parallel: false, head: 1, tail: 3 });
    assert_eq!(plan(Rule::While, 4), Plan { parallel: false, head: 1, tail: 1 });
    assert_eq!(plan(Rule::Empty, 4), Plan { parallel: false, head: 1, tail: 1 });
    for rule in [Rule::If, Rule::Elif, Rule::Else, Rule::Comment] {
        assert_eq!(plan(rule, 4), Plan { parallel: false, head: 1, tail: 4 });
        assert_eq!(plan(rule, 0), Plan { parallel: false, head: 1, tail: 0 });
    }
    assert_eq!(
        plan(Rule::Block, u32::MAX),
        Plan { parallel: true, head: u32::MAX - 1, tail: u32::MAX - 1 }
    );
}

#[test]
fn cascade_takes_an_arm_and_nothing_else() {
    let arm = || Command::ELSE(Box::new(exp("v")));
    assert_eq!(
        cascade(Rule::If, vec![exp("x"), exp("y"), arm(), exp("z")]),
        Ok(vec![
            Command::IF {
                expression: Box::new(exp("x")),
                inside: Box::new(exp("y")),
                or: Box::new(arm()),
            },
            exp("z"),
        ])
    );
    assert_eq!(
        cascade(Rule::Elif, vec![exp("x"), exp("y"), exp("z")]),
        Ok(vec![
            Command::ELIF {
                expression: Box::new(exp("x")),
                inside: Box::new(exp("y")),
                or: Box::new(Command::DO_NOTHING),
            },
            exp("z"),
        ])
    );
    assert_eq!(
        cascade(Rule::If, vec![exp("x")]),
        Err(ScparseError::UNKNOWN("if without a condition and a body".to_string()))
    );
}

#[test]
fn only_elif_and_else_continue_a_cascade() {
    let elif = Command::ELIF {
        expression: Box::new(exp("x")),
        inside: Box::new(exp("y")),
        or: Box::new(Command::DO_NOTHING),
    };
    let first = Command::IF {
        expression: Box::new(exp("x")),
        inside: Box::new(exp("y")),
        or: Box::new(Command::DO_NOTHING),
    };
    assert!(continues(&elif));
    assert!(continues(&Command::ELSE(Box::new(exp("v")))));
    assert!(!continues(&first));
    assert!(!continues(&Command::DO_NOTHING));
    assert!(!continues(&exp("x")));
    assert!(!continues(&Command::BLOCK(vec![])));
}

#[test]
fn else_and_while_take_what_they_need() {
    assert_eq!(
        otherwise(vec![exp("v"), exp("w")]),
        Ok(vec![Command::ELSE(Box::new(exp("v"))), exp("w")])
    );
    assert_eq!(
        otherwise(vec![]),
        Err(ScparseError::UNKNOWN("else without a body".to_string()))
    );
    assert_eq!(
        repeat(vec![exp("x"), exp("y"), exp("z")]),
        Ok(vec![
            Command::WHILE { expression: Box::new(exp("x")), inside: Box::new(exp("y")) },
            exp("z"),
        ])
    );
    assert_eq!(
        repeat(vec![exp("x")]),
        Err(ScparseError::UNKNOWN("while without a condition and a body".to_string()))
    );
}

#[test]
fn define_collapses_a_bare_expression() {
    assert_eq!(
        define("a".to_string(), exp("1")),
        Command::DEFINE_SIMPLE("a".to_string(), "1".to_string())
    );
    assert_eq!(
        define("a".to_string(), Command::DO_NOTHING),
        Command::DEFINE("a".to_string(), Box::new(Command::DO_NOTHING))
    );
    assert_eq!(block(vec![exp("x")]), Command::BLOCK(vec![exp("x")]));
}

#[test]
fn join_puts_the_head_before_the_tail() {
    let none = Verdicts::new();
    assert_eq!(
        join(Rule::Block, String::new(), Ok(vec![exp("a")]), Ok(vec![exp("b")]), &none),
        Ok(vec![Command::BLOCK(vec![exp("a")]), exp("b")])
    );
    assert_eq!(
        join(Rule::Assign, "n".to_string(), Ok(vec![exp("1"), exp("2")]), Ok(vec![exp("b")]), &none),
        Ok(vec![Command::DEFINE_SIMPLE("n".to_string(), "1".to_string()), exp("b")])
    );
    assert_eq!(
        join(Rule::Comment, String::new(), Ok(vec![]), Ok(vec![exp("b")]), &none),
        Ok(vec![exp("b")])
    );
    assert_eq!(join(Rule::Empty, String::new(), Ok(vec![]), Ok(vec![]), &none), Ok(vec![]));
}

#[test]
fn join_asks_the_table_about_a_candidate() {
    let table = accepting(&["x"]);
    assert_eq!(
        join(Rule::Candidate, "x".to_string(), Ok(vec![]), Ok(vec![exp("b")]), &table),
        Ok(vec![exp("x"), exp("b")])
    );
    assert_eq!(
        join(Rule::Candidate, "y".to_string(), Ok(vec![]), Ok(vec![exp("b")]), &table),
        Ok(vec![exp("b")])
    );
}

#[test]
fn join_reports_the_first_error_in_script_order() {
    let none = Verdicts::new();
    let unclosed = || Err(ScparseError::BracketNotClosed);
    let missing = || Err(ScparseError::NoRightHandSide("a".to_string()));
    assert_eq!(join(Rule::Block, String::new(), missing(), unclosed(), &none), missing());
    assert_eq!(join(Rule::Block, String::new(), Ok(vec![]), unclosed(), &none), unclosed());
    assert_eq!(
        join(Rule::Assign, "n".to_string(), Ok(vec![]), unclosed(), &none),
        Err(ScparseError::NoRightHandSide("n".to_string()))
    );
    assert_eq!(
        join(Rule::Assign, "n".to_string(), Ok(vec![exp("1")]), unclosed(), &none),
        unclosed()
    );
    assert_eq!(
        join(Rule::If, String::new(), Ok(vec![]), Ok(vec![exp("x")]), &none),
        Err(ScparseError::UNKNOWN("if without a condition and a body".to_string()))
    );
}

#[test]
fn verdicts_hold_what_was_accepted() {
    let mut table = Verdicts::new();
    assert!(!table.accepts("x"));
    assert!(!table.accepts(""));
    table.accept("x");
    table.accept("é + 1");
    assert!(table.accepts("x"));
    assert!(table.accepts("é + 1"));
    assert!(!table.accepts("x "));
    assert!(!table.accepts("e + 1"));
    let buf: Vec<char> = "a x b".chars().collect();
    assert!(table.holds(&buf, 2, 3));
    assert!(!table.holds(&buf, 2, 4));
    assert!(!table.holds(&buf, 0, 0));
}
