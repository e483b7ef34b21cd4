//! The ways in which translation and type resolution fail.

use vstd::prelude::*;
use vstd::string::StringExecFns;

verus! {

/// What went wrong.
#[derive(Debug, PartialEq)]
pub enum TranslationErrorKind {
    /// An operation is not in the signature table.
    UnknownOperation(String),
    /// A composition of no diagrams.
    EmptyComposition,
    /// A diagram with this many outputs is followed by one with that many
    /// inputs.
    CompositionArityMismatch(usize, usize),
    /// One wire would have to carry both types.
    TypeConflict(String, String),
    /// A wire is left without a type.
    UnresolvedType,
}

/// The mathematical value of a [`TranslationErrorKind`].
pub enum ErrorModel {
    UnknownOperation(Seq<char>),
    EmptyComposition,
    CompositionArityMismatch(nat, nat),
    TypeConflict(Seq<char>, Seq<char>),
    UnresolvedType,
}

impl View for TranslationErrorKind {
    type V = ErrorModel;

    open spec fn view(&self) -> ErrorModel {
        match self {
            TranslationErrorKind::UnknownOperation(name) => ErrorModel::UnknownOperation(name@),
            TranslationErrorKind::EmptyComposition => ErrorModel::EmptyComposition,
            TranslationErrorKind::CompositionArityMismatch(outputs, inputs) => {
                ErrorModel::CompositionArityMismatch(*outputs as nat, *inputs as nat)
            },
            TranslationErrorKind::TypeConflict(first, second) => ErrorModel::TypeConflict(
                first@,
                second@,
            ),
            TranslationErrorKind::UnresolvedType => ErrorModel::UnresolvedType,
        }
    }
}

/// A failure of translation or of type resolution, with a message for people.
#[derive(Debug)]
pub struct TranslationError {
    pub kind: TranslationErrorKind,
    pub message: String,
}

/// The character of one decimal digit.
pub open spec fn digit_char(digit: nat) -> char {
    if digit == 0 {
        '0'
    } else if digit == 1 {
        '1'
    } else if digit == 2 {
        '2'
    } else if digit == 3 {
        '3'
    } else if digit == 4 {
        '4'
    } else if digit == 5 {
        '5'
    } else if digit == 6 {
        '6'
    } else if digit == 7 {
        '7'
    } else if digit == 8 {
        '8'
    } else {
        '9'
    }
}

/// A number written in decimal, without leading zeros.
pub open spec fn decimal_text(n: nat) -> Seq<char>
    decreases n,
{
    if n < 10 {
        seq![digit_char(n)]
    } else {
        decimal_text(n / 10).push(digit_char(n % 10))
    }
}

/// The message that goes with each kind of failure.
pub open spec fn message_text(kind: ErrorModel) -> Seq<char> {
    match kind {
        ErrorModel::UnknownOperation(name) => "Unknown operation: '"@ + name + "'"@,
        ErrorModel::EmptyComposition => "Empty composition"@,
        ErrorModel::CompositionArityMismatch(outputs, inputs) => "Composition mismatch: "@
            + decimal_text(outputs) + " outputs to "@ + decimal_text(inputs) + " inputs"@,
        ErrorModel::TypeConflict(first, second) => "Type conflict: cannot unify "@ + first
            + " with "@ + second + " in the same equivalence class"@,
        ErrorModel::UnresolvedType => "Unknown object type remains after inference"@,
    }
}

/// One decimal digit as text.
fn digit_text(digit: usize) -> (text: &'static str)
    requires
        digit < 10,
    ensures
        text@ == seq![digit_char(digit as nat)],
{
    proof {
        reveal_strlit("0");
        reveal_strlit("1");
        reveal_strlit("2");
        reveal_strlit("3");
        reveal_strlit("4");
        reveal_strlit("5");
        reveal_strlit("6");
        reveal_strlit("7");
        reveal_strlit("8");
        reveal_strlit("9");
    }
    let text = if digit == 0 {
        "0"
    } else if digit == 1 {
        "1"
    } else if digit == 2 {
        "2"
    } else if digit == 3 {
        "3"
    } else if digit == 4 {
        "4"
    } else if digit == 5 {
        "5"
    } else if digit == 6 {
        "6"
    } else if digit == 7 {
        "7"
    } else if digit == 8 {
        "8"
    } else {
        "9"
    };
    assert(text@ =~= seq![digit_char(digit as nat)]);
    text
}

/// Writes a number in decimal.
pub fn decimal(n: usize) -> (text: String)
    ensures
        text@ == decimal_text(n as nat),
    decreases n,
{
    if n < 10 {
        String::from_str(digit_text(n))
    } else {
        let mut text = decimal(n / 10);
        text.append(digit_text(n % 10));
        assert(text@ =~= decimal_text(n as nat));
        text
    }
}

impl TranslationError {
    /// Whether this is the failure `kind`, with the message that goes with it.
    pub open spec fn reports(&self, kind: ErrorModel) -> bool {
        self.kind@ == kind && self.message@ == message_text(kind)
    }

    /// The failure of the given kind, with its message.
    pub fn new(kind: TranslationErrorKind) -> (error: TranslationError)
        ensures
            error.kind == kind,
            error.reports(kind@),
    {
        let message = match &kind {
            TranslationErrorKind::UnknownOperation(name) => {
                let mut text = String::from_str("Unknown operation: '");
                text.append(name.as_str());
                text.append("'");
                text
            },
            TranslationErrorKind::EmptyComposition => String::from_str("Empty composition"),
            TranslationErrorKind::CompositionArityMismatch(outputs, inputs) => {
                let mut text = String::from_str("Composition mismatch: ");
                text.append(decimal(*outputs).as_str());
                text.append(" outputs to ");
                text.append(decimal(*inputs).as_str());
                text.append(" inputs");
                text
            },
            TranslationErrorKind::TypeConflict(first, second) => {
                let mut text = String::from_str("Type conflict: cannot unify ");
                text.append(first.as_str());
                text.append(" with ");
                text.append(second.as_str());
                text.append(" in the same equivalence class");
                text
            },
            TranslationErrorKind::UnresolvedType => String::from_str(
                "Unknown object type remains after inference",
            ),
        };
        TranslationError { kind, message }
    }

    /// The failure as one line of text.
    pub fn to_string(&self) -> (text: String)
        ensures
            text@ == "Translation error: "@ + self.message@,
    {
        let mut text = String::from_str("Translation error: ");
        text.append(self.message.as_str());
        text
    }
}

} // verus!
