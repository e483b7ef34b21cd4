//! The tokens of the diagram notation.

use vstd::prelude::*;
use vstd::string::StrSliceExecFns;

verus! {

/// What a token is.
#[derive(Debug, PartialEq)]
pub enum TokenKind {
    OpenParen,
    CloseParen,
    OpenBrace,
    CloseBrace,
    OpenBracket,
    CloseBracket,
    Dot,
    Name(String),
}

/// A token, with the position of its first character in the text.
#[derive(Debug, PartialEq)]
pub struct Token {
    pub kind: TokenKind,
    pub position: usize,
}

/// The mathematical value of a [`TokenKind`].
pub enum TokenKindModel {
    OpenParen,
    CloseParen,
    OpenBrace,
    CloseBrace,
    OpenBracket,
    CloseBracket,
    Dot,
    Name(Seq<char>),
}

/// The mathematical value of a [`Token`].
pub struct TokenModel {
    pub kind: TokenKindModel,
    pub position: int,
}

impl View for TokenKind {
    type V = TokenKindModel;

    open spec fn view(&self) -> TokenKindModel {
        match self {
            TokenKind::OpenParen => TokenKindModel::OpenParen,
            TokenKind::CloseParen => TokenKindModel::CloseParen,
            TokenKind::OpenBrace => TokenKindModel::OpenBrace,
            TokenKind::CloseBrace => TokenKindModel::CloseBrace,
            TokenKind::OpenBracket => TokenKindModel::OpenBracket,
            TokenKind::CloseBracket => TokenKindModel::CloseBracket,
            TokenKind::Dot => TokenKindModel::Dot,
            TokenKind::Name(name) => TokenKindModel::Name(name@),
        }
    }
}

impl View for Token {
    type V = TokenModel;

    open spec fn view(&self) -> TokenModel {
        TokenModel { kind: self.kind@, position: self.position as int }
    }
}

/// The values of a list of tokens, in order.
pub open spec fn tokens_view(tokens: Seq<Token>) -> Seq<TokenModel> {
    tokens.map_values(|token: Token| token@)
}

/// Blank characters separate tokens and mean nothing else.
pub open spec fn is_blank(c: char) -> bool {
    c == ' ' || c == '\t' || c == '\n' || c == '\r'
}

/// The token that a bracket or the dot is, if `c` is one of them.
pub open spec fn punctuation(c: char) -> Option<TokenKindModel> {
    if c == '(' {
        Some(TokenKindModel::OpenParen)
    } else if c == ')' {
        Some(TokenKindModel::CloseParen)
    } else if c == '{' {
        Some(TokenKindModel::OpenBrace)
    } else if c == '}' {
        Some(TokenKindModel::CloseBrace)
    } else if c == '[' {
        Some(TokenKindModel::OpenBracket)
    } else if c == ']' {
        Some(TokenKindModel::CloseBracket)
    } else if c == '.' {
        Some(TokenKindModel::Dot)
    } else {
        None
    }
}

/// A name is made of any characters but blanks, brackets and the dot.
pub open spec fn is_name_char(c: char) -> bool {
    !is_blank(c) && punctuation(c) is None
}

/// Where the longest run of name characters from `from` ends.
pub open spec fn name_end(text: Seq<char>, from: int) -> int
    decreases text.len() - from,
{
    if 0 <= from < text.len() && is_name_char(text[from]) {
        name_end(text, from + 1)
    } else {
        from
    }
}

/// The tokens of the text from position `from` on: blanks are skipped, each
/// bracket and dot is a token, and each longest run of other characters is
/// a name. (The test on `end` is there for termination alone: by
/// `lemma_name_end` a run that starts on a name character ends behind its
/// start and within the text.)
pub open spec fn tokens_from(text: Seq<char>, from: int) -> Seq<TokenModel>
    decreases text.len() - from,
{
    if from < 0 || from >= text.len() {
        Seq::empty()
    } else if is_blank(text[from]) {
        tokens_from(text, from + 1)
    } else if punctuation(text[from]) is Some {
        seq![TokenModel { kind: punctuation(text[from])->0, position: from }] + tokens_from(
            text,
            from + 1,
        )
    } else {
        let end = name_end(text, from);
        if end <= from || end > text.len() {
            Seq::empty()
        } else {
            seq![
                TokenModel { kind: TokenKindModel::Name(text.subrange(from, end)), position: from },
            ] + tokens_from(text, end)
        }
    }
}

/// The tokens of a text.
pub open spec fn tokens_of(text: Seq<char>) -> Seq<TokenModel> {
    tokens_from(text, 0)
}

/// A run of name characters ends within the text, behind its start.
pub proof fn lemma_name_end(text: Seq<char>, from: int)
    requires
        0 <= from <= text.len(),
    ensures
        from <= name_end(text, from) <= text.len(),
        from < text.len() && is_name_char(text[from]) ==> from < name_end(text, from),
    decreases text.len() - from,
{
    if from < text.len() && is_name_char(text[from]) {
        lemma_name_end(text, from + 1);
    }
}

/// Every token starts inside the text, and tokens come in the order of
/// their positions.
pub proof fn lemma_token_positions(text: Seq<char>, from: int)
    requires
        0 <= from,
    ensures
        forall|k: int|
            0 <= k < tokens_from(text, from).len() ==> from <= (#[trigger] tokens_from(
                text,
                from,
            )[k]).position < text.len(),
    decreases text.len() - from,
{
    if from < text.len() {
        if is_blank(text[from]) {
            lemma_token_positions(text, from + 1);
        } else if punctuation(text[from]) is Some {
            lemma_token_positions(text, from + 1);
        } else {
            lemma_name_end(text, from);
            lemma_token_positions(text, name_end(text, from));
        }
    }
}

/// The characters of a text.
pub fn characters(text: &str) -> (chars: Vec<char>)
    ensures
        chars@ == text@,
{
    let mut chars: Vec<char> = Vec::new();
    for c in it: text.chars()
        invariant
            chars@ == it.seq().take(it.index()),
            it.seq() == text@,
    {
        chars.push(c);
    }
    chars
}

/// Whether a character is blank.
fn blank(c: char) -> (yes: bool)
    ensures
        yes == is_blank(c),
{
    c == ' ' || c == '\t' || c == '\n' || c == '\r'
}

/// The token that a bracket or the dot is.
fn punctuation_kind(c: char) -> (kind: Option<TokenKind>)
    ensures
        match kind {
            Some(kind) => punctuation(c) == Some(kind@),
            None => punctuation(c) is None,
        },
{
    if c == '(' {
        Some(TokenKind::OpenParen)
    } else if c == ')' {
        Some(TokenKind::CloseParen)
    } else if c == '{' {
        Some(TokenKind::OpenBrace)
    } else if c == '}' {
        Some(TokenKind::CloseBrace)
    } else if c == '[' {
        Some(TokenKind::OpenBracket)
    } else if c == ']' {
        Some(TokenKind::CloseBracket)
    } else if c == '.' {
        Some(TokenKind::Dot)
    } else {
        None
    }
}

/// Whether a character may stand in a name.
fn name_char(c: char) -> (yes: bool)
    ensures
        yes == is_name_char(c),
{
    !blank(c) && punctuation_kind(c).is_none()
}

/// Cuts a text into its tokens.
pub fn tokenize(text: &str) -> (tokens: Vec<Token>)
    ensures
        tokens_view(tokens@) == tokens_of(text@),
{
    let chars = characters(text);
    let mut tokens: Vec<Token> = Vec::new();
    let mut i: usize = 0;
    proof {
        assert(tokens_view(tokens@) + tokens_from(text@, 0) =~= tokens_of(text@));
    }
    while i < chars.len()
        invariant
            i <= chars@.len(),
            chars@ == text@,
            tokens_view(tokens@) + tokens_from(text@, i as int) == tokens_of(text@),
        decreases chars@.len() - i,
    {
        let c = chars[i];
        let ghost earlier = tokens@;
        if blank(c) {
            i = i + 1;
        } else {
            match punctuation_kind(c) {
                Some(kind) => {
                    tokens.push(Token { kind, position: i });
                    proof {
                        assert(tokens_view(tokens@) =~= tokens_view(earlier).push(
                            tokens@[tokens@.len() - 1]@,
                        ));
                        assert(tokens_view(tokens@) + tokens_from(text@, i + 1) =~= tokens_view(
                            earlier,
                        ) + tokens_from(text@, i as int));
                    }
                    i = i + 1;
                },
                None => {
                    let start = i;
                    i = i + 1;
                    while i < chars.len() && name_char(chars[i])
                        invariant
                            start < i <= chars@.len(),
                            chars@ == text@,
                            name_end(text@, start as int) == name_end(text@, i as int),
                        decreases chars@.len() - i,
                    {
                        i = i + 1;
                    }
                    let name = text.substring_char(start, i).to_owned();
                    tokens.push(Token { kind: TokenKind::Name(name), position: start });
                    proof {
                        assert(name_end(text@, start as int) == i);
                        assert(tokens_view(tokens@) =~= tokens_view(earlier).push(
                            tokens@[tokens@.len() - 1]@,
                        ));
                        assert(tokens_view(tokens@) + tokens_from(text@, i as int) =~= tokens_view(
                            earlier,
                        ) + tokens_from(text@, start as int));
                    }
                },
            }
        }
    }
    proof {
        assert(tokens_view(tokens@) + tokens_from(text@, i as int) =~= tokens_view(tokens@));
    }
    tokens
}

} // verus!
