//! What is written reads back as what it was.

use crate::ast::{
    expr_text, exprs_text, variable_of, variable_text, variables_text, ExprModel, VariableModel,
};
use crate::lexer::{
    is_blank, is_name_char, name_end, punctuation, tokens_from, tokens_of, TokenKindModel,
    TokenModel,
};
use crate::parser::{
    names_end, parse_expr_spec, parse_frobenius_spec, parse_list_spec, parse_spec,
    variables_between, ParseFailure,
};
use vstd::prelude::*;

verus! {

/// A name that can be written: it is not empty and holds neither a blank
/// nor a bracket nor the dot.
pub open spec fn is_name(name: Seq<char>) -> bool {
    &&& name.len() > 0
    &&& forall|i: int| 0 <= i < name.len() ==> is_name_char(#[trigger] name[i])
}

/// A variable that can be written: the anonymous one, or one whose name can
/// be written and is not the underscore.
pub open spec fn writable_variable(variable: VariableModel) -> bool {
    match variable {
        VariableModel::Named(name) => is_name(name) && name != seq!['_'],
        VariableModel::Anonymous => true,
    }
}

/// Every variable in the list can be written.
pub open spec fn writable_variables(variables: Seq<VariableModel>) -> bool {
    forall|i: int| 0 <= i < variables.len() ==> writable_variable(#[trigger] variables[i])
}

/// A diagram that can be written: all its names can.
pub open spec fn writable(expr: ExprModel) -> bool
    decreases expr,
{
    match expr {
        ExprModel::Operation(name) => is_name(name),
        ExprModel::Frobenius { inputs, outputs } => writable_variables(inputs)
            && writable_variables(outputs),
        ExprModel::Composition(parts) => forall|i: int|
            0 <= i < parts.len() ==> writable(#[trigger] parts[i]),
        ExprModel::Tensor(parts) => forall|i: int|
            0 <= i < parts.len() ==> writable(#[trigger] parts[i]),
    }
}

/// What the tokens are, without their positions.
pub open spec fn kinds(tokens: Seq<TokenModel>) -> Seq<TokenKindModel> {
    tokens.map_values(|token: TokenModel| token.kind)
}

/// The tokens of a list of variables.
pub open spec fn variable_kinds(variables: Seq<VariableModel>) -> Seq<TokenKindModel> {
    Seq::new(variables.len(), |i: int| TokenKindModel::Name(variable_text(variables[i])))
}

/// The tokens of a diagram as it is written.
pub open spec fn expr_kinds(expr: ExprModel) -> Seq<TokenKindModel>
    decreases expr, 0nat,
{
    match expr {
        ExprModel::Operation(name) => seq![TokenKindModel::Name(name)],
        ExprModel::Frobenius { inputs, outputs } => seq![TokenKindModel::OpenBracket]
            + variable_kinds(inputs) + seq![TokenKindModel::Dot] + variable_kinds(outputs)
            + seq![TokenKindModel::CloseBracket],
        ExprModel::Composition(parts) => seq![TokenKindModel::OpenParen] + list_kinds(
            parts,
            parts.len(),
        ) + seq![TokenKindModel::CloseParen],
        ExprModel::Tensor(parts) => seq![TokenKindModel::OpenBrace] + list_kinds(
            parts,
            parts.len(),
        ) + seq![TokenKindModel::CloseBrace],
    }
}

/// The tokens of the first `upto` of `parts`.
pub open spec fn list_kinds(parts: Seq<ExprModel>, upto: nat) -> Seq<TokenKindModel>
    decreases parts, upto,
{
    if upto == 0 || upto > parts.len() {
        Seq::empty()
    } else {
        list_kinds(parts, (upto - 1) as nat) + expr_kinds(parts[upto - 1])
    }
}

/// `piece` stands in `text` at position `from`.
pub open spec fn stands_at<T>(text: Seq<T>, from: int, piece: Seq<T>) -> bool {
    &&& 0 <= from
    &&& from + piece.len() <= text.len()
    &&& forall|i: int| 0 <= i < piece.len() ==> text[from + i] == #[trigger] piece[i]
}

/// No name runs on across position `at`.
pub open spec fn breaks_at(text: Seq<char>, at: int) -> bool {
    at >= text.len() || !is_name_char(text[at])
}

/// The tokens from `from` on are `found`, then the tokens from `next` on.
pub open spec fn lexes(text: Seq<char>, from: int, found: Seq<TokenKindModel>, next: int) -> bool {
    kinds(tokens_from(text, from)) == found + kinds(tokens_from(text, next))
}

/// Where two pieces stand one behind the other, each stands in its place.
pub proof fn lemma_stands_apart<T>(text: Seq<T>, from: int, first: Seq<T>, second: Seq<T>)
    requires
        stands_at(text, from, first + second),
    ensures
        stands_at(text, from, first),
        stands_at(text, from + first.len(), second),
{
    assert forall|i: int| 0 <= i < first.len() implies text[from + i] == #[trigger] first[i] by {
        assert((first + second)[i] == first[i]);
    }
    assert forall|i: int| 0 <= i < second.len() implies text[from + first.len() + i]
        == #[trigger] second[i] by {
        assert((first + second)[first.len() + i] == second[i]);
    }
}

/// Lexing one part and then the next is lexing both.
pub proof fn lemma_lexes_on(
    text: Seq<char>,
    from: int,
    first: Seq<TokenKindModel>,
    middle: int,
    second: Seq<TokenKindModel>,
    next: int,
)
    requires
        lexes(text, from, first, middle),
        lexes(text, middle, second, next),
    ensures
        lexes(text, from, first + second, next),
{
    assert(first + (second + kinds(tokens_from(text, next))) =~= (first + second) + kinds(
        tokens_from(text, next),
    ));
}

/// A blank is skipped.
pub proof fn lemma_lex_blank(text: Seq<char>, from: int)
    requires
        0 <= from < text.len(),
        is_blank(text[from]),
    ensures
        lexes(text, from, Seq::empty(), from + 1),
{
    assert(Seq::<TokenKindModel>::empty() + kinds(tokens_from(text, from + 1)) =~= kinds(
        tokens_from(text, from + 1),
    ));
}

/// A bracket or a dot is one token.
pub proof fn lemma_lex_punctuation(text: Seq<char>, from: int)
    requires
        0 <= from < text.len(),
        punctuation(text[from]) is Some,
    ensures
        lexes(text, from, seq![punctuation(text[from])->0], from + 1),
{
    let token = TokenModel { kind: punctuation(text[from])->0, position: from };
    assert(kinds(seq![token] + tokens_from(text, from + 1)) =~= seq![token.kind] + kinds(
        tokens_from(text, from + 1),
    ));
}

/// A run of name characters ends where the next character is none.
pub proof fn lemma_name_runs(text: Seq<char>, from: int, end: int)
    requires
        0 <= from <= end <= text.len(),
        forall|i: int| from <= i < end ==> is_name_char(#[trigger] text[i]),
        breaks_at(text, end),
    ensures
        name_end(text, from) == end,
    decreases end - from,
{
    if from < end {
        assert(is_name_char(text[from]));
        lemma_name_runs(text, from + 1, end);
    }
}

/// A name that stands in the text, with no name character behind it, is one
/// token.
pub proof fn lemma_lex_name(text: Seq<char>, from: int, name: Seq<char>)
    requires
        is_name(name),
        stands_at(text, from, name),
        breaks_at(text, from + name.len()),
    ensures
        lexes(text, from, seq![TokenKindModel::Name(name)], from + name.len()),
{
    let end = from + name.len();
    assert forall|i: int| from <= i < end implies is_name_char(#[trigger] text[i]) by {
        assert(text[from + (i - from)] == name[i - from]);
    }
    lemma_name_runs(text, from, end);
    assert(text[from + 0] == name[0]);
    assert(text.subrange(from, end) =~= name) by {
        assert forall|i: int| 0 <= i < name.len() implies text.subrange(from, end)[i]
            == name[i] by {
            assert(text[from + i] == name[i]);
        }
    }
    let token = TokenModel { kind: TokenKindModel::Name(name), position: from };
    assert(kinds(seq![token] + tokens_from(text, end)) =~= seq![token.kind] + kinds(
        tokens_from(text, end),
    ));
}

/// What a variable is written as is a name.
pub proof fn lemma_variable_text_is_name(variable: VariableModel)
    requires
        writable_variable(variable),
    ensures
        is_name(variable_text(variable)),
        variable_of(variable_text(variable)) == variable,
{
    match variable {
        VariableModel::Named(name) => {},
        VariableModel::Anonymous => {
            assert(seq!['_'][0] == '_');
        },
    }
}

/// Variables that are written with blanks between them are lexed as their
/// names.
pub proof fn lemma_lex_variables(
    variables: Seq<VariableModel>,
    upto: nat,
    text: Seq<char>,
    from: int,
)
    requires
        writable_variables(variables),
        upto <= variables.len(),
        stands_at(text, from, variables_text(variables, upto)),
        breaks_at(text, from + variables_text(variables, upto).len()),
    ensures
        lexes(
            text,
            from,
            variable_kinds(variables).take(upto as int),
            from + variables_text(variables, upto).len(),
        ),
    decreases upto,
{
    let all = variable_kinds(variables);
    if upto == 0 {
        assert(all.take(0) + kinds(tokens_from(text, from)) =~= kinds(tokens_from(text, from)));
    } else if upto == 1 {
        lemma_variable_text_is_name(variables[0]);
        lemma_lex_name(text, from, variable_text(variables[0]));
        assert(all.take(1) =~= seq![TokenKindModel::Name(variable_text(variables[0]))]);
    } else {
        let before = variables_text(variables, (upto - 1) as nat);
        let name = variable_text(variables[upto - 1]);
        let middle = from + before.len();
        lemma_variable_text_is_name(variables[upto - 1]);
        assert(variables_text(variables, upto) == (before + seq![' ']) + name);
        lemma_stands_apart(text, from, before + seq![' '], name);
        lemma_stands_apart(text, from, before, seq![' ']);
        assert(text[middle + 0] == seq![' '][0]);
        lemma_lex_variables(variables, (upto - 1) as nat, text, from);
        lemma_lex_blank(text, middle);
        lemma_lex_name(text, middle + 1, name);
        lemma_lexes_on(
            text,
            from,
            all.take(upto - 1),
            middle,
            Seq::<TokenKindModel>::empty(),
            middle + 1,
        );
        lemma_lexes_on(
            text,
            from,
            all.take(upto - 1) + Seq::<TokenKindModel>::empty(),
            middle + 1,
            seq![TokenKindModel::Name(name)],
            middle + 1 + name.len(),
        );
        assert(all.take(upto as int) =~= all.take(upto - 1) + Seq::<TokenKindModel>::empty()
            + seq![TokenKindModel::Name(name)]);
    }
}

/// A diagram that stands in a text as it is written, with no name character
/// behind it, is lexed as its tokens.
pub proof fn lemma_lex_expr(expr: ExprModel, text: Seq<char>, from: int)
    requires
        writable(expr),
        stands_at(text, from, expr_text(expr)),
        breaks_at(text, from + expr_text(expr).len()),
    ensures
        lexes(text, from, expr_kinds(expr), from + expr_text(expr).len()),
    decreases expr, 0nat,
{
    match expr {
        ExprModel::Operation(name) => {
            lemma_lex_name(text, from, name);
        },
        ExprModel::Composition(parts) => {
            lemma_lex_bracketed(parts, text, from, '(', ')');
        },
        ExprModel::Tensor(parts) => {
            lemma_lex_bracketed(parts, text, from, '{', '}');
        },
        ExprModel::Frobenius { inputs, outputs } => {
            let first = variables_text(inputs, inputs.len());
            let second = variables_text(outputs, outputs.len());
            let dot = seq![' ', '.', ' '];
            let at_first = from + 1;
            let at_dot = at_first + first.len();
            let at_second = at_dot + 3;
            let at_close = at_second + second.len();
            assert(expr_text(expr) == (((seq!['['] + first) + dot) + second) + seq![']']);
            lemma_stands_apart(text, from, ((seq!['['] + first) + dot) + second, seq![']']);
            lemma_stands_apart(text, from, (seq!['['] + first) + dot, second);
            lemma_stands_apart(text, from, seq!['['] + first, dot);
            lemma_stands_apart(text, from, seq!['['], first);
            assert(text[from + 0] == seq!['['][0]);
            assert(text[at_dot + 0] == dot[0]);
            assert(text[at_dot + 1] == dot[1]);
            assert(text[at_dot + 2] == dot[2]);
            assert(text[at_close + 0] == seq![']'][0]);
            lemma_lex_punctuation(text, from);
            lemma_lex_variables(inputs, inputs.len(), text, at_first);
            lemma_lex_blank(text, at_dot);
            lemma_lex_punctuation(text, at_dot + 1);
            lemma_lex_blank(text, at_dot + 2);
            lemma_lex_variables(outputs, outputs.len(), text, at_second);
            lemma_lex_punctuation(text, at_close);
            let open = seq![TokenKindModel::OpenBracket];
            let ins = variable_kinds(inputs);
            let outs = variable_kinds(outputs);
            let none = Seq::<TokenKindModel>::empty();
            assert(ins.take(inputs.len() as int) =~= ins);
            assert(outs.take(outputs.len() as int) =~= outs);
            lemma_lexes_on(text, from, open, at_first, ins, at_dot);
            lemma_lexes_on(text, from, open + ins, at_dot, none, at_dot + 1);
            lemma_lexes_on(
                text,
                from,
                open + ins + none,
                at_dot + 1,
                seq![TokenKindModel::Dot],
                at_dot + 2,
            );
            lemma_lexes_on(
                text,
                from,
                open + ins + none + seq![TokenKindModel::Dot],
                at_dot + 2,
                none,
                at_second,
            );
            lemma_lexes_on(
                text,
                from,
                open + ins + none + seq![TokenKindModel::Dot] + none,
                at_second,
                outs,
                at_close,
            );
            lemma_lexes_on(
                text,
                from,
                open + ins + none + seq![TokenKindModel::Dot] + none + outs,
                at_close,
                seq![TokenKindModel::CloseBracket],
                at_close + 1,
            );
            assert(expr_kinds(expr) =~= open + ins + none + seq![TokenKindModel::Dot] + none + outs
                + seq![TokenKindModel::CloseBracket]);
        },
    }
}

/// What `lemma_lex_expr` says, of a composition or a tensor with its
/// brackets.
pub proof fn lemma_lex_bracketed(
    parts: Seq<ExprModel>,
    text: Seq<char>,
    from: int,
    open: char,
    close: char,
)
    requires
        forall|i: int| 0 <= i < parts.len() ==> writable(#[trigger] parts[i]),
        punctuation(open) is Some,
        punctuation(close) is Some,
        stands_at(text, from, seq![open] + exprs_text(parts, parts.len()) + seq![close]),
    ensures
        lexes(
            text,
            from,
            seq![punctuation(open)->0] + list_kinds(parts, parts.len()) + seq![
                punctuation(close)->0,
            ],
            from + exprs_text(parts, parts.len()).len() + 2,
        ),
    decreases parts, parts.len() + 1,
{
    let inner = exprs_text(parts, parts.len());
    let at_inner = from + 1;
    let at_close = at_inner + inner.len();
    lemma_stands_apart(text, from, seq![open] + inner, seq![close]);
    lemma_stands_apart(text, from, seq![open], inner);
    assert(text[from + 0] == seq![open][0]);
    assert(text[at_close + 0] == seq![close][0]);
    lemma_lex_punctuation(text, from);
    lemma_lex_list(parts, parts.len(), text, at_inner);
    lemma_lex_punctuation(text, at_close);
    lemma_lexes_on(
        text,
        from,
        seq![punctuation(open)->0],
        at_inner,
        list_kinds(parts, parts.len()),
        at_close,
    );
    lemma_lexes_on(
        text,
        from,
        seq![punctuation(open)->0] + list_kinds(parts, parts.len()),
        at_close,
        seq![punctuation(close)->0],
        at_close + 1,
    );
}

/// What `lemma_lex_expr` says, of diagrams written with blanks between
/// them.
pub proof fn lemma_lex_list(parts: Seq<ExprModel>, upto: nat, text: Seq<char>, from: int)
    requires
        forall|i: int| 0 <= i < parts.len() ==> writable(#[trigger] parts[i]),
        upto <= parts.len(),
        stands_at(text, from, exprs_text(parts, upto)),
        breaks_at(text, from + exprs_text(parts, upto).len()),
    ensures
        lexes(text, from, list_kinds(parts, upto), from + exprs_text(parts, upto).len()),
    decreases parts, upto,
{
    let none = Seq::<TokenKindModel>::empty();
    if upto == 0 {
        assert(none + kinds(tokens_from(text, from)) =~= kinds(tokens_from(text, from)));
    } else if upto == 1 {
        lemma_lex_expr(parts[0], text, from);
        assert(list_kinds(parts, 1) =~= expr_kinds(parts[0])) by {
            assert(list_kinds(parts, 0) =~= none);
        }
    } else {
        let before = exprs_text(parts, (upto - 1) as nat);
        let last = expr_text(parts[upto - 1]);
        let middle = from + before.len();
        assert(exprs_text(parts, upto) == (before + seq![' ']) + last);
        lemma_stands_apart(text, from, before + seq![' '], last);
        lemma_stands_apart(text, from, before, seq![' ']);
        assert(text[middle + 0] == seq![' '][0]);
        lemma_lex_list(parts, (upto - 1) as nat, text, from);
        lemma_lex_blank(text, middle);
        lemma_lex_expr(parts[upto - 1], text, middle + 1);
        lemma_lexes_on(text, from, list_kinds(parts, (upto - 1) as nat), middle, none, middle + 1);
        lemma_lexes_on(
            text,
            from,
            list_kinds(parts, (upto - 1) as nat) + none,
            middle + 1,
            expr_kinds(parts[upto - 1]),
            middle + 1 + last.len(),
        );
        assert(list_kinds(parts, upto) =~= list_kinds(parts, (upto - 1) as nat) + none
            + expr_kinds(parts[upto - 1]));
    }
}

/// A run of name tokens ends where the next token is none.
pub proof fn lemma_names_run(tokens: Seq<TokenModel>, from: int, end: int)
    requires
        0 <= from <= end <= tokens.len(),
        forall|i: int| from <= i < end ==> (#[trigger] tokens[i]).kind is Name,
        end >= tokens.len() || !(tokens[end].kind is Name),
    ensures
        names_end(tokens, from) == end,
    decreases end - from,
{
    if from < end {
        assert(tokens[from].kind is Name);
        lemma_names_run(tokens, from + 1, end);
    }
}

/// The name tokens of variables, with a token behind them that is no name,
/// are read as those variables.
pub proof fn lemma_parse_variables(
    variables: Seq<VariableModel>,
    tokens: Seq<TokenModel>,
    from: int,
)
    requires
        writable_variables(variables),
        stands_at(kinds(tokens), from, variable_kinds(variables)),
        from + variables.len() < tokens.len(),
        !(tokens[from + variables.len()].kind is Name),
    ensures
        names_end(tokens, from) == from + variables.len(),
        variables_between(tokens, from, from + variables.len()) == variables,
{
    let end = from + variables.len();
    assert forall|i: int| from <= i < end implies (#[trigger] tokens[i]).kind
        == TokenKindModel::Name(variable_text(variables[i - from])) by {
        assert(kinds(tokens)[from + (i - from)] == variable_kinds(variables)[i - from]);
    }
    lemma_names_run(tokens, from, end);
    assert forall|i: int| 0 <= i < variables.len() implies variables_between(tokens, from, end)[i]
        == variables[i] by {
        assert(tokens[from + i].kind == TokenKindModel::Name(variable_text(variables[i])));
        lemma_variable_text_is_name(variables[i]);
    }
    assert(variables_between(tokens, from, end) =~= variables);
}

/// The tokens of a diagram begin with a name or an opening bracket.
pub proof fn lemma_expr_kinds_begin(expr: ExprModel)
    ensures
        expr_kinds(expr).len() >= 1,
        expr_kinds(expr)[0] is Name || expr_kinds(expr)[0] is OpenParen
            || expr_kinds(expr)[0] is OpenBrace || expr_kinds(expr)[0] is OpenBracket,
{
}

/// The tokens of each part stand in the tokens of the list, one part
/// behind the other.
pub proof fn lemma_list_kinds_part(parts: Seq<ExprModel>, k: int, upto: nat)
    requires
        0 <= k < upto <= parts.len(),
    ensures
        list_kinds(parts, (k + 1) as nat) == list_kinds(parts, k as nat) + expr_kinds(parts[k]),
        stands_at(
            list_kinds(parts, upto),
            list_kinds(parts, k as nat).len() as int,
            expr_kinds(parts[k]),
        ),
        list_kinds(parts, (k + 1) as nat).len() <= list_kinds(parts, upto).len(),
    decreases upto,
{
    if k + 1 < upto {
        lemma_list_kinds_part(parts, k, (upto - 1) as nat);
    }
}

/// The tokens of a diagram that can be written are read as that diagram.
pub proof fn lemma_parse_expr(expr: ExprModel, tokens: Seq<TokenModel>, from: int)
    requires
        writable(expr),
        stands_at(kinds(tokens), from, expr_kinds(expr)),
    ensures
        parse_expr_spec(tokens, from) == Ok::<(ExprModel, int), ParseFailure>(
            (expr, from + expr_kinds(expr).len()),
        ),
    decreases expr, 0nat,
{
    let found = expr_kinds(expr);
    assert(tokens[from].kind == found[0]) by {
        assert(kinds(tokens)[from + 0] == found[0]);
    }
    match expr {
        ExprModel::Operation(name) => {},
        ExprModel::Composition(parts) => {
            let inner = list_kinds(parts, parts.len());
            lemma_stands_apart(
                kinds(tokens),
                from,
                seq![TokenKindModel::OpenParen] + inner,
                seq![TokenKindModel::CloseParen],
            );
            lemma_stands_apart(kinds(tokens), from, seq![TokenKindModel::OpenParen], inner);
            assert(kinds(tokens)[from + 1 + inner.len() + 0] == seq![
                TokenKindModel::CloseParen,
            ][0]);
            lemma_parse_list(parts, 0, tokens, from + 1, TokenKindModel::CloseParen);
            assert(parts.subrange(0, parts.len() as int) =~= parts);
        },
        ExprModel::Tensor(parts) => {
            let inner = list_kinds(parts, parts.len());
            lemma_stands_apart(
                kinds(tokens),
                from,
                seq![TokenKindModel::OpenBrace] + inner,
                seq![TokenKindModel::CloseBrace],
            );
            lemma_stands_apart(kinds(tokens), from, seq![TokenKindModel::OpenBrace], inner);
            assert(kinds(tokens)[from + 1 + inner.len() + 0] == seq![
                TokenKindModel::CloseBrace,
            ][0]);
            lemma_parse_list(parts, 0, tokens, from + 1, TokenKindModel::CloseBrace);
            assert(parts.subrange(0, parts.len() as int) =~= parts);
        },
        ExprModel::Frobenius { inputs, outputs } => {
            let open = seq![TokenKindModel::OpenBracket];
            let ins = variable_kinds(inputs);
            let dot = seq![TokenKindModel::Dot];
            let outs = variable_kinds(outputs);
            let close = seq![TokenKindModel::CloseBracket];
            let at_dot = from + 1 + inputs.len();
            let at_close = at_dot + 1 + outputs.len();
            lemma_stands_apart(kinds(tokens), from, ((open + ins) + dot) + outs, close);
            lemma_stands_apart(kinds(tokens), from, (open + ins) + dot, outs);
            lemma_stands_apart(kinds(tokens), from, open + ins, dot);
            lemma_stands_apart(kinds(tokens), from, open, ins);
            assert(kinds(tokens)[at_dot + 0] == dot[0]);
            assert(kinds(tokens)[at_close + 0] == close[0]);
            lemma_parse_variables(inputs, tokens, from + 1);
            lemma_parse_variables(outputs, tokens, at_dot + 1);
            assert(parse_frobenius_spec(tokens, from + 1) == Ok::<(ExprModel, int), ParseFailure>(
                (expr, at_close + 1),
            ));
        },
    }
}

/// What `lemma_parse_expr` says, of the parts of a list from part `k` on:
/// they are read up to the closing bracket.
pub proof fn lemma_parse_list(
    parts: Seq<ExprModel>,
    k: nat,
    tokens: Seq<TokenModel>,
    start: int,
    closer: TokenKindModel,
)
    requires
        forall|i: int| 0 <= i < parts.len() ==> writable(#[trigger] parts[i]),
        k <= parts.len(),
        closer is CloseParen || closer is CloseBrace,
        stands_at(kinds(tokens), start, list_kinds(parts, parts.len())),
        start + list_kinds(parts, parts.len()).len() < tokens.len(),
        tokens[start + list_kinds(parts, parts.len()).len()].kind == closer,
    ensures
        parse_list_spec(tokens, start + list_kinds(parts, k).len(), closer) == Ok::<
            (Seq<ExprModel>, int),
            ParseFailure,
        >(
            (
                parts.subrange(k as int, parts.len() as int),
                start + list_kinds(parts, parts.len()).len() + 1,
            ),
        ),
    decreases parts, parts.len() - k,
{
    let whole = list_kinds(parts, parts.len());
    let here = start + list_kinds(parts, k).len();
    if k == parts.len() {
        assert(parts.subrange(k as int, parts.len() as int) =~= Seq::<ExprModel>::empty());
    } else {
        let part = parts[k as int];
        lemma_list_kinds_part(parts, k as int, parts.len());
        lemma_expr_kinds_begin(part);
        assert(stands_at(kinds(tokens), here, expr_kinds(part))) by {
            assert forall|i: int| 0 <= i < expr_kinds(part).len() implies kinds(tokens)[here + i]
                == #[trigger] expr_kinds(part)[i] by {
                assert(whole[list_kinds(parts, k).len() + i] == expr_kinds(part)[i]);
                assert(kinds(tokens)[start + (list_kinds(parts, k).len() + i)] == whole[list_kinds(
                    parts,
                    k,
                ).len() + i]);
            }
        }
        assert(tokens[here].kind == expr_kinds(part)[0]) by {
            assert(kinds(tokens)[here + 0] == expr_kinds(part)[0]);
        }
        lemma_parse_expr(part, tokens, here);
        lemma_parse_list(parts, k + 1, tokens, start, closer);
        assert(seq![part] + parts.subrange((k + 1) as int, parts.len() as int) =~= parts.subrange(
            k as int,
            parts.len() as int,
        ));
    }
}

/// A diagram that can be written reads back as itself: the reader gives
/// for the text of the diagram the diagram.
pub proof fn lemma_reads_back(expr: ExprModel)
    requires
        writable(expr),
    ensures
        parse_spec(expr_text(expr)) == Ok::<ExprModel, ParseFailure>(expr),
{
    let text = expr_text(expr);
    let tokens = tokens_of(text);
    assert(stands_at(text, 0, text));
    lemma_lex_expr(expr, text, 0);
    assert(kinds(tokens) =~= expr_kinds(expr)) by {
        assert(tokens_from(text, text.len() as int) =~= Seq::<TokenModel>::empty());
        assert(expr_kinds(expr) + kinds(Seq::<TokenModel>::empty()) =~= expr_kinds(expr));
    }
    assert(stands_at(kinds(tokens), 0, expr_kinds(expr)));
    lemma_parse_expr(expr, tokens, 0);
}

} // verus!
