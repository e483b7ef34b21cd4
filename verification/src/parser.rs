//! The grammar of the diagram notation.
//!
//! A diagram is the name of an operation; a composition `( d ... )`; a
//! tensor `{ d ... }`; or a Frobenius node `[ v ... . v ... ]`, which may be
//! written `[ v ... ]` where its outputs repeat its inputs. A variable `v`
//! is a name, and the name `_` is the anonymous variable.

use crate::ast::{
    clone_variables, exprs_view, variable_of, variables_view, Expr, ExprModel, Variable,
    VariableModel,
};
use crate::error::{decimal, decimal_text};
use crate::lexer::{tokenize, tokens_of, tokens_view, Token, TokenKind, TokenKindModel, TokenModel};
use vstd::prelude::*;
use vstd::string::StringExecFns;

verus! {

/// Why a text is no diagram.
#[derive(Debug, Clone, Copy, PartialEq, Eq)]
pub enum ParseError {
    /// The text ends where a diagram or a closing bracket is still due.
    UnexpectedEnd,
    /// The token that starts at this position cannot stand there.
    UnexpectedToken(usize),
    /// A complete diagram is followed by the token at this position.
    TrailingInput(usize),
}

/// The mathematical value of a [`ParseError`].
pub enum ParseFailure {
    UnexpectedEnd,
    UnexpectedToken(int),
    TrailingInput(int),
}

impl View for ParseError {
    type V = ParseFailure;

    open spec fn view(&self) -> ParseFailure {
        match self {
            ParseError::UnexpectedEnd => ParseFailure::UnexpectedEnd,
            ParseError::UnexpectedToken(position) => ParseFailure::UnexpectedToken(*position as int),
            ParseError::TrailingInput(position) => ParseFailure::TrailingInput(*position as int),
        }
    }
}

impl ParseFailure {
    /// The message that goes with each way of being no diagram.
    pub open spec fn message(self) -> Seq<char> {
        match self {
            ParseFailure::UnexpectedEnd => "unexpected end of input"@,
            ParseFailure::UnexpectedToken(position) => "unexpected token at position "@
                + decimal_text(position as nat),
            ParseFailure::TrailingInput(position) => "trailing input at position "@ + decimal_text(
                position as nat,
            ),
        }
    }
}

impl ParseError {
    /// The failure as one line of text.
    pub fn to_string(&self) -> (text: String)
        ensures
            text@ == "Parse error: "@ + self@.message(),
    {
        let mut text = String::from_str("Parse error: ");
        match self {
            ParseError::UnexpectedEnd => {
                text.append("unexpected end of input");
            },
            ParseError::UnexpectedToken(position) => {
                text.append("unexpected token at position ");
                text.append(decimal(*position).as_str());
            },
            ParseError::TrailingInput(position) => {
                text.append("trailing input at position ");
                text.append(decimal(*position).as_str());
            },
        }
        assert(text@ =~= "Parse error: "@ + self@.message());
        text
    }
}

/// Where the longest run of names from token `from` ends.
pub open spec fn names_end(tokens: Seq<TokenModel>, from: int) -> int
    decreases tokens.len() - from,
{
    if 0 <= from < tokens.len() && tokens[from].kind is Name {
        names_end(tokens, from + 1)
    } else {
        from
    }
}

/// The variables that the name tokens from `from` up to `end` stand for.
pub open spec fn variables_between(tokens: Seq<TokenModel>, from: int, end: int) -> Seq<
    VariableModel,
> {
    Seq::new((end - from) as nat, |i: int| variable_of(tokens[from + i].kind->Name_0))
}

/// What is read behind an opening square bracket at token `from - 1`: the
/// Frobenius node and the position behind its closing bracket.
pub open spec fn parse_frobenius_spec(tokens: Seq<TokenModel>, from: int) -> Result<
    (ExprModel, int),
    ParseFailure,
> {
    let middle = names_end(tokens, from);
    let first = variables_between(tokens, from, middle);
    if middle >= tokens.len() {
        Err(ParseFailure::UnexpectedEnd)
    } else if tokens[middle].kind is CloseBracket {
        Ok((ExprModel::Frobenius { inputs: first, outputs: first }, middle + 1))
    } else if tokens[middle].kind is Dot {
        let end = names_end(tokens, middle + 1);
        let second = variables_between(tokens, middle + 1, end);
        if end >= tokens.len() {
            Err(ParseFailure::UnexpectedEnd)
        } else if tokens[end].kind is CloseBracket {
            Ok((ExprModel::Frobenius { inputs: first, outputs: second }, end + 1))
        } else {
            Err(ParseFailure::UnexpectedToken(tokens[end].position))
        }
    } else {
        Err(ParseFailure::UnexpectedToken(tokens[middle].position))
    }
}

/// The diagram that starts at token `from`, and the position behind it.
pub open spec fn parse_expr_spec(tokens: Seq<TokenModel>, from: int) -> Result<
    (ExprModel, int),
    ParseFailure,
>
    decreases tokens.len() - from, 0nat,
{
    if from < 0 || from >= tokens.len() {
        Err(ParseFailure::UnexpectedEnd)
    } else {
        match tokens[from].kind {
            TokenKindModel::Name(name) => Ok((ExprModel::Operation(name), from + 1)),
            TokenKindModel::OpenParen => match parse_list_spec(
                tokens,
                from + 1,
                TokenKindModel::CloseParen,
            ) {
                Ok((parts, next)) => Ok((ExprModel::Composition(parts), next)),
                Err(failure) => Err(failure),
            },
            TokenKindModel::OpenBrace => match parse_list_spec(
                tokens,
                from + 1,
                TokenKindModel::CloseBrace,
            ) {
                Ok((parts, next)) => Ok((ExprModel::Tensor(parts), next)),
                Err(failure) => Err(failure),
            },
            TokenKindModel::OpenBracket => parse_frobenius_spec(tokens, from + 1),
            _ => Err(ParseFailure::UnexpectedToken(tokens[from].position)),
        }
    }
}

/// The diagrams from token `from` up to the token `closer`, and the position
/// behind that token. (The test on `next` is there for termination alone:
/// by `lemma_parse_advances` a diagram that is read ends behind its start
/// and within the tokens.)
pub open spec fn parse_list_spec(tokens: Seq<TokenModel>, from: int, closer: TokenKindModel) -> Result<
    (Seq<ExprModel>, int),
    ParseFailure,
>
    decreases tokens.len() - from, 1nat,
{
    if from < 0 || from >= tokens.len() {
        Err(ParseFailure::UnexpectedEnd)
    } else if tokens[from].kind == closer {
        Ok((Seq::empty(), from + 1))
    } else {
        match parse_expr_spec(tokens, from) {
            Err(failure) => Err(failure),
            Ok((first, next)) => if next <= from || next > tokens.len() {
                Err(ParseFailure::UnexpectedEnd)
            } else {
                match parse_list_spec(tokens, next, closer) {
                    Err(failure) => Err(failure),
                    Ok((rest, end)) => Ok((seq![first] + rest, end)),
                }
            },
        }
    }
}

/// The diagram that a list of tokens is, where it is exactly one.
pub open spec fn parse_tokens_spec(tokens: Seq<TokenModel>) -> Result<ExprModel, ParseFailure> {
    match parse_expr_spec(tokens, 0) {
        Err(failure) => Err(failure),
        Ok((expr, next)) => if next < tokens.len() {
            Err(ParseFailure::TrailingInput(tokens[next].position))
        } else {
            Ok(expr)
        },
    }
}

/// The diagram that a text denotes, or why it denotes none.
pub open spec fn parse_spec(text: Seq<char>) -> Result<ExprModel, ParseFailure> {
    parse_tokens_spec(tokens_of(text))
}

/// A run of names ends within the tokens, at or behind its start.
pub proof fn lemma_names_end(tokens: Seq<TokenModel>, from: int)
    requires
        0 <= from <= tokens.len(),
    ensures
        from <= names_end(tokens, from) <= tokens.len(),
        forall|k: int| from <= k < names_end(tokens, from) ==> (#[trigger] tokens[k]).kind is Name,
    decreases tokens.len() - from,
{
    if from < tokens.len() && tokens[from].kind is Name {
        lemma_names_end(tokens, from + 1);
    }
}

/// A diagram that is read takes at least one token and ends within the
/// tokens; so does a list.
pub proof fn lemma_parse_advances(tokens: Seq<TokenModel>, from: int)
    requires
        0 <= from,
    ensures
        parse_expr_spec(tokens, from) is Ok ==> from < parse_expr_spec(tokens, from)->Ok_0.1
            <= tokens.len(),
        forall|closer: TokenKindModel|
            (#[trigger] parse_list_spec(tokens, from, closer)) is Ok ==> from < parse_list_spec(
                tokens,
                from,
                closer,
            )->Ok_0.1 <= tokens.len(),
    decreases tokens.len() - from,
{
    if from < tokens.len() {
        lemma_parse_advances(tokens, from + 1);
        lemma_names_end(tokens, from + 1);
        if names_end(tokens, from + 1) < tokens.len() {
            lemma_names_end(tokens, names_end(tokens, from + 1) + 1);
        }
        assert(parse_expr_spec(tokens, from) is Ok ==> from < parse_expr_spec(tokens, from)->Ok_0.1
            <= tokens.len()) by {
            match tokens[from].kind {
                TokenKindModel::OpenParen => {
                    let inner = parse_list_spec(tokens, from + 1, TokenKindModel::CloseParen);
                    assert(inner is Ok ==> from + 1 < inner->Ok_0.1 <= tokens.len());
                },
                TokenKindModel::OpenBrace => {
                    let inner = parse_list_spec(tokens, from + 1, TokenKindModel::CloseBrace);
                    assert(inner is Ok ==> from + 1 < inner->Ok_0.1 <= tokens.len());
                },
                _ => {},
            }
        }
        assert forall|closer: TokenKindModel|
            (#[trigger] parse_list_spec(tokens, from, closer)) is Ok implies from
            < parse_list_spec(tokens, from, closer)->Ok_0.1 <= tokens.len() by {
            if tokens[from].kind != closer {
                let next = parse_expr_spec(tokens, from)->Ok_0.1;
                assert(parse_expr_spec(tokens, from) is Ok);
                assert(from < next <= tokens.len());
                lemma_parse_advances(tokens, next);
                let rest = parse_list_spec(tokens, next, closer);
                assert(rest is Ok);
                assert(next < rest->Ok_0.1 <= tokens.len());
                assert(parse_list_spec(tokens, from, closer)->Ok_0.1 == rest->Ok_0.1);
            }
        }
    }
}

/// The reader of the diagram notation.
pub struct HExprParser;

/// Reads the longest run of names from token `from`.
fn parse_variables(tokens: &Vec<Token>, from: usize) -> (result: (Vec<Variable>, usize))
    requires
        from <= tokens@.len(),
    ensures
        result.1 == names_end(tokens_view(tokens@), from as int),
        from <= result.1 <= tokens@.len(),
        variables_view(result.0@) == variables_between(
            tokens_view(tokens@),
            from as int,
            result.1 as int,
        ),
{
    let ghost models = tokens_view(tokens@);
    let mut variables: Vec<Variable> = Vec::new();
    let mut i: usize = from;
    loop
        invariant
            from <= i <= tokens@.len(),
            models == tokens_view(tokens@),
            names_end(models, from as int) == names_end(models, i as int),
            variables@.len() == i - from,
            forall|k: int|
                0 <= k < i - from ==> (#[trigger] variables@[k])@ == variable_of(
                    models[from + k].kind->Name_0,
                ),
        ensures
            names_end(models, i as int) == i,
        decreases tokens@.len() - i,
    {
        if i >= tokens.len() {
            break ;
        }
        match &tokens[i].kind {
            TokenKind::Name(name) => {
                variables.push(Variable::from_name(name.as_str()));
                i = i + 1;
            },
            _ => {
                break ;
            },
        }
    }
    assert(variables_view(variables@) =~= variables_between(models, from as int, i as int));
    (variables, i)
}

/// The token that closes a composition or a tensor.
pub open spec fn closer_of(composition: bool) -> TokenKindModel {
    if composition {
        TokenKindModel::CloseParen
    } else {
        TokenKindModel::CloseBrace
    }
}

/// What reading a list gives when `items` were read before it.
pub open spec fn behind(
    items: Seq<ExprModel>,
    rest: Result<(Seq<ExprModel>, int), ParseFailure>,
) -> Result<(Seq<ExprModel>, int), ParseFailure> {
    match rest {
        Ok((more, end)) => Ok((items + more, end)),
        Err(failure) => Err(failure),
    }
}

/// Reads what stands behind an opening square bracket.
fn parse_frobenius(tokens: &Vec<Token>, from: usize) -> (result: Result<(Expr, usize), ParseError>)
    requires
        from <= tokens@.len(),
    ensures
        match parse_frobenius_spec(tokens_view(tokens@), from as int) {
            Ok((expr, next)) => result is Ok && result->Ok_0.0@ == expr && result->Ok_0.1 == next
                && from < next <= tokens@.len(),
            Err(failure) => result is Err && result->Err_0@ == failure,
        },
{
    let (first, middle) = parse_variables(tokens, from);
    if middle >= tokens.len() {
        return Err(ParseError::UnexpectedEnd);
    }
    match &tokens[middle].kind {
        TokenKind::CloseBracket => {
            let outputs = clone_variables(&first);
            Ok((Expr::Frobenius { inputs: first, outputs }, middle + 1))
        },
        TokenKind::Dot => {
            let (second, end) = parse_variables(tokens, middle + 1);
            if end >= tokens.len() {
                return Err(ParseError::UnexpectedEnd);
            }
            match &tokens[end].kind {
                TokenKind::CloseBracket => Ok(
                    (Expr::Frobenius { inputs: first, outputs: second }, end + 1),
                ),
                _ => Err(ParseError::UnexpectedToken(tokens[end].position)),
            }
        },
        _ => Err(ParseError::UnexpectedToken(tokens[middle].position)),
    }
}

/// Reads the diagram that starts at token `from`.
fn parse_at(tokens: &Vec<Token>, from: usize) -> (result: Result<(Expr, usize), ParseError>)
    ensures
        match parse_expr_spec(tokens_view(tokens@), from as int) {
            Ok((expr, next)) => result is Ok && result->Ok_0.0@ == expr && result->Ok_0.1 == next
                && from < next <= tokens@.len(),
            Err(failure) => result is Err && result->Err_0@ == failure,
        },
    decreases tokens@.len() - from, 0nat,
{
    if from >= tokens.len() {
        return Err(ParseError::UnexpectedEnd);
    }
    match &tokens[from].kind {
        TokenKind::Name(name) => Ok((Expr::Operation(name.clone()), from + 1)),
        TokenKind::OpenParen => match parse_items(tokens, from + 1, true) {
            Ok((parts, next)) => {
                let expr = Expr::Composition(parts);
                assert(expr@->Composition_0 =~= exprs_view(parts@));
                Ok((expr, next))
            },
            Err(error) => Err(error),
        },
        TokenKind::OpenBrace => match parse_items(tokens, from + 1, false) {
            Ok((parts, next)) => {
                let expr = Expr::Tensor(parts);
                assert(expr@->Tensor_0 =~= exprs_view(parts@));
                Ok((expr, next))
            },
            Err(error) => Err(error),
        },
        TokenKind::OpenBracket => parse_frobenius(tokens, from + 1),
        _ => Err(ParseError::UnexpectedToken(tokens[from].position)),
    }
}

/// Reads diagrams from token `from` up to the closing token.
fn parse_items(tokens: &Vec<Token>, from: usize, composition: bool) -> (result: Result<
    (Vec<Expr>, usize),
    ParseError,
>)
    requires
        from <= tokens@.len(),
    ensures
        match parse_list_spec(tokens_view(tokens@), from as int, closer_of(composition)) {
            Ok((parts, next)) => result is Ok && exprs_view(result->Ok_0.0@) == parts
                && result->Ok_0.1 == next && from < next <= tokens@.len(),
            Err(failure) => result is Err && result->Err_0@ == failure,
        },
    decreases tokens@.len() - from, 1nat,
{
    let ghost models = tokens_view(tokens@);
    let ghost closer = closer_of(composition);
    let mut items: Vec<Expr> = Vec::new();
    let mut i: usize = from;
    proof {
        assert(behind(exprs_view(items@), parse_list_spec(models, i as int, closer))
            =~= parse_list_spec(models, from as int, closer)) by {
            let rest = parse_list_spec(models, from as int, closer);
            if rest is Ok {
                assert(exprs_view(items@) + rest->Ok_0.0 =~= rest->Ok_0.0);
            }
        }
    }
    loop
        invariant
            from <= i <= tokens@.len(),
            models == tokens_view(tokens@),
            closer == closer_of(composition),
            behind(exprs_view(items@), parse_list_spec(models, i as int, closer))
                == parse_list_spec(models, from as int, closer),
        decreases tokens@.len() - i,
    {
        if i >= tokens.len() {
            return Err(ParseError::UnexpectedEnd);
        }
        let closes = match &tokens[i].kind {
            TokenKind::CloseParen => composition,
            TokenKind::CloseBrace => !composition,
            _ => false,
        };
        if closes {
            proof {
                assert(exprs_view(items@) + Seq::<ExprModel>::empty() =~= exprs_view(items@));
            }
            return Ok((items, i + 1));
        }
        match parse_at(tokens, i) {
            Err(error) => {
                return Err(error);
            },
            Ok((expr, next)) => {
                let ghost earlier = items@;
                items.push(expr);
                proof {
                    lemma_parse_advances(models, i as int);
                    let rest = parse_list_spec(models, next as int, closer);
                    assert(exprs_view(items@) =~= exprs_view(earlier).push(expr@));
                    if rest is Ok {
                        assert(exprs_view(items@) + rest->Ok_0.0 =~= exprs_view(earlier) + (seq![
                            expr@,
                        ] + rest->Ok_0.0));
                    }
                }
                i = next;
            },
        }
    }
}

impl HExprParser {
    /// Reads a text as one diagram.
    pub fn parse_expr(input: &str) -> (result: Result<Expr, ParseError>)
        ensures
            match parse_spec(input@) {
                Ok(expr) => result is Ok && result->Ok_0@ == expr,
                Err(failure) => result is Err && result->Err_0@ == failure,
            },
    {
        let tokens = tokenize(input);
        match parse_at(&tokens, 0) {
            Err(error) => Err(error),
            Ok((expr, next)) => {
                if next < tokens.len() {
                    Err(ParseError::TrailingInput(tokens[next].position))
                } else {
                    Ok(expr)
                }
            },
        }
    }
}

} // verus!
