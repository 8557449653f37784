//! Loading a rule set: splitting rule text into lines and parsing each line.
use crate::expr::{eval_spec, lemma_eval_depends_on_term, term, Expr};
use crate::parser::{chars_of, parse_rule_or_stop, parse_stop, parse_term};
use crate::text::{join, join_with, nat_text, push_usize};
use vstd::prelude::*;
use vstd::string::*;

verus! {

/// A rule set that does not parse: the message names every rule that failed.
#[derive(Clone, Debug, PartialEq, Eq)]
pub enum ParseError {
    Error(String),
}

/// The message for one rule that does not parse, with the character position
/// where parsing stopped.
#[verifier::opaque]
pub open spec fn rule_error_text(rule: Seq<char>) -> Seq<char> {
    "Parse error: invalid rule \""@ + rule + "\" at character "@ + nat_text(parse_stop(rule))
}

/// The messages for the rules that do not parse, in order.
pub open spec fn rejected(rules: Seq<String>) -> Seq<Seq<char>>
    decreases rules.len(),
{
    if rules.len() == 0 {
        Seq::empty()
    } else {
        let rest = rejected(rules.drop_last());
        if parse_term(rules.last()@) is None {
            rest.push(rule_error_text(rules.last()@))
        } else {
            rest
        }
    }
}

impl ParseError {
    /// The message shown for this error.
    pub fn message(&self) -> (r: String)
        ensures
            match self {
                ParseError::Error(msg) => r@ == "parse error: "@ + msg@,
            },
    {
        match self {
            ParseError::Error(msg) => {
                let mut out = "parse error: ".to_owned();
                out.append(msg.as_str());
                out
            },
        }
    }
}

fn rule_error(rule: &String, stop: usize) -> (r: String)
    requires
        stop as nat == parse_stop(rule@),
    ensures
        r@ == rule_error_text(rule@),
{
    let mut out = "Parse error: invalid rule \"".to_owned();
    out.append(rule.as_str());
    out.append("\" at character ");
    push_usize(&mut out, stop);
    reveal(rule_error_text);
    assert(out@ =~= rule_error_text(rule@));
    out
}

/// Parses a rule set, one expression per rule.
///
/// All rules are tried: when some do not parse, the error joins the messages
/// for all of them with newlines, in the order of the rules.
pub fn parse_rules(rules: &Vec<String>) -> (r: Result<Vec<Expr>, ParseError>)
    ensures
        r is Ok <==> (forall|i: int|
            0 <= i < rules@.len() ==> (#[trigger] parse_term(rules@[i]@)) is Some),
        match r {
            Ok(asts) => asts@.len() == rules@.len() && forall|i: int|
                0 <= i < rules@.len() ==> parse_term(rules@[i]@) == Some(term(#[trigger] asts@[i])),
            Err(ParseError::Error(msg)) => msg@ == join_with(rejected(rules@), "\n"@),
        },
{
    let mut asts: Vec<Expr> = Vec::new();
    let mut errors: Vec<String> = Vec::new();
    let mut i: usize = 0;
    while i < rules.len()
        invariant
            i <= rules@.len(),
            errors@.map_values(|p: String| p@) == rejected(rules@.subrange(0, i as int)),
            errors@.len() == 0 ==> asts@.len() == i,
            errors@.len() == 0 ==> forall|j: int|
                0 <= j < i ==> parse_term(rules@[j]@) == Some(term(#[trigger] asts@[j])),
            errors@.len() == 0 <==> forall|j: int|
                0 <= j < i ==> (#[trigger] parse_term(rules@[j]@)) is Some,
        decreases rules@.len() - i,
    {
        let ghost before = errors@;
        assert(rules@.subrange(0, i + 1).drop_last() =~= rules@.subrange(0, i as int));
        match parse_rule_or_stop(rules[i].as_str()) {
            Ok(e) => {
                asts.push(e);
            },
            Err(stop) => {
                errors.push(rule_error(&rules[i], stop));
                assert(errors@.map_values(|p: String| p@) =~= before.map_values(|p: String| p@).push(
                    rule_error_text(rules@[i as int]@),
                ));
            },
        }
        i = i + 1;
    }
    assert(rules@.subrange(0, i as int) =~= rules@);
    if errors.len() == 0 {
        Ok(asts)
    } else {
        Err(ParseError::Error(join(&errors, "\n")))
    }
}

/// Parsing the same rule twice gives two expressions that evaluate alike
/// under any bindings: `e1` and `e2` are what two calls of `parse_rule` on `s`
/// may return.
pub proof fn lemma_parse_twice_evaluates_alike(
    s: Seq<char>,
    e1: Expr,
    e2: Expr,
    vars: Seq<(Seq<char>, isize)>,
)
    requires
        parse_term(s) == Some(term(e1)),
        parse_term(s) == Some(term(e2)),
    ensures
        eval_spec(e1, vars) == eval_spec(e2, vars),
{
    lemma_eval_depends_on_term(e1, e2, vars);
}

/// `s` cut at each `\n`, the newlines dropped.
pub open spec fn split_newlines(s: Seq<char>) -> Seq<Seq<char>>
    decreases s.len(),
{
    if s.len() == 0 {
        seq![Seq::empty()]
    } else {
        let prev = split_newlines(s.drop_last());
        if s.last() == '\n' {
            prev.push(Seq::empty())
        } else {
            prev.update(prev.len() - 1, prev.last().push(s.last()))
        }
    }
}

/// A line without the `\r` that ends it, if any.
pub open spec fn strip_cr(line: Seq<char>) -> Seq<char> {
    if line.len() > 0 && line.last() == '\r' {
        line.drop_last()
    } else {
        line
    }
}

/// The lines of `s`: cut at each `\n`, with a `\r` just before that `\n`
/// removed. Text after the last `\n` is a line as it stands, and there is no
/// empty line after a newline that ends the text.
pub open spec fn text_lines(s: Seq<char>) -> Seq<Seq<char>> {
    let pieces = split_newlines(s);
    let ended = pieces.drop_last().map_values(|l: Seq<char>| strip_cr(l));
    if pieces.last().len() == 0 {
        ended
    } else {
        ended.push(pieces.last())
    }
}

fn strip_cr_exec(text: &str, cs: &Vec<char>, from: usize, to: usize) -> (r: String)
    requires
        cs@ == text@,
        from <= to <= cs@.len(),
    ensures
        r@ == strip_cr(cs@.subrange(from as int, to as int)),
{
    let end = if to > from && cs[to - 1] == '\r' {
        to - 1
    } else {
        to
    };
    let line = text.substring_char(from, end).to_owned();
    assert(line@ =~= strip_cr(cs@.subrange(from as int, to as int)));
    line
}

/// Splits rule text into one rule per line, as a line reader reads it: lines
/// end at `\n`, a `\r` just before that `\n` is dropped, and a newline at the
/// very end opens no further line.
pub fn rule_lines(text: &str) -> (r: Vec<String>)
    ensures
        r@.map_values(|p: String| p@) == text_lines(text@),
{
    let cs = chars_of(text);
    let ghost s = cs@;
    let ghost mut done: Seq<Seq<char>> = Seq::empty();
    let mut lines: Vec<String> = Vec::new();
    let mut start: usize = 0;
    let mut i: usize = 0;
    assert(s.subrange(0, 0) =~= Seq::<char>::empty());
    assert(split_newlines(Seq::<char>::empty()) =~= done.push(Seq::<char>::empty()));
    while i < cs.len()
        invariant
            s == cs@,
            cs@ == text@,
            start <= i <= cs@.len(),
            split_newlines(s.subrange(0, i as int)) == done.push(
                s.subrange(start as int, i as int),
            ),
            lines@.map_values(|p: String| p@) == done.map_values(|l: Seq<char>| strip_cr(l)),
        decreases cs@.len() - i,
    {
        assert(s.subrange(0, i + 1).drop_last() =~= s.subrange(0, i as int));
        if cs[i] == '\n' {
            let line = strip_cr_exec(text, &cs, start, i);
            let ghost before = lines@;
            lines.push(line);
            proof {
                assert(lines@.map_values(|p: String| p@) =~= before.map_values(|p: String| p@).push(
                    line@,
                ));
                done = done.push(s.subrange(start as int, i as int));
                assert(done.map_values(|l: Seq<char>| strip_cr(l)) =~= done.drop_last().map_values(
                    |l: Seq<char>| strip_cr(l),
                ).push(strip_cr(s.subrange(start as int, i as int))));
                assert(s.subrange(i + 1, i + 1) =~= Seq::<char>::empty());
            }
            start = i + 1;
        } else {
            assert(s.subrange(start as int, i as int).push(s[i as int]) =~= s.subrange(
                start as int,
                i + 1,
            ));
        }
        i = i + 1;
    }
    assert(s.subrange(0, i as int) =~= s);
    assert(done.push(s.subrange(start as int, i as int)).drop_last() =~= done);
    if start < cs.len() {
        let line = text.substring_char(start, cs.len()).to_owned();
        let ghost before = lines@;
        lines.push(line);
        proof {
            assert(lines@.map_values(|p: String| p@) =~= before.map_values(|p: String| p@).push(
                line@,
            ));
        }
    }
    lines
}

} // verus!
