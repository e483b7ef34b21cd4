//! The abstract syntax of diagram expressions.

use std::convert::Infallible;
use std::str::FromStr;
use vstd::prelude::*;
use vstd::string::StringExecFns;

verus! {

/// A wire name inside a Frobenius node.
#[derive(Debug, PartialEq)]
pub enum Variable {
    Named(String),
    Anonymous,
}

/// A diagram expression.
#[derive(Debug, PartialEq)]
pub enum Expr {
    Composition(Vec<Expr>),
    Tensor(Vec<Expr>),
    Frobenius { inputs: Vec<Variable>, outputs: Vec<Variable> },
    Operation(String),
}

/// The mathematical value of a [`Variable`].
pub enum VariableModel {
    Named(Seq<char>),
    Anonymous,
}

/// The mathematical value of an [`Expr`].
pub enum ExprModel {
    Composition(Seq<ExprModel>),
    Tensor(Seq<ExprModel>),
    Frobenius { inputs: Seq<VariableModel>, outputs: Seq<VariableModel> },
    Operation(Seq<char>),
}

impl View for Variable {
    type V = VariableModel;

    open spec fn view(&self) -> VariableModel {
        match self {
            Variable::Named(name) => VariableModel::Named(name@),
            Variable::Anonymous => VariableModel::Anonymous,
        }
    }
}

impl Clone for Variable {
    fn clone(&self) -> (copy: Self)
        ensures
            copy == *self,
    {
        match self {
            Variable::Named(name) => Variable::Named(name.clone()),
            Variable::Anonymous => Variable::Anonymous,
        }
    }
}

/// The values of a list of variables, in order.
pub open spec fn variables_view(vars: Seq<Variable>) -> Seq<VariableModel> {
    Seq::new(vars.len(), |i: int| vars[i]@)
}

impl Clone for Expr {
    fn clone(&self) -> (copy: Self)
        ensures
            copy@ == self@,
        decreases self, 0nat,
    {
        match self {
            Expr::Composition(parts) => {
                let copies = Self::clone_all(parts);
                let copy = Expr::Composition(copies);
                assert(copy@->Composition_0 =~= self@->Composition_0);
                copy
            },
            Expr::Tensor(parts) => {
                let copies = Self::clone_all(parts);
                let copy = Expr::Tensor(copies);
                assert(copy@->Tensor_0 =~= self@->Tensor_0);
                copy
            },
            Expr::Frobenius { inputs, outputs } => Expr::Frobenius {
                inputs: clone_variables(inputs),
                outputs: clone_variables(outputs),
            },
            Expr::Operation(name) => Expr::Operation(name.clone()),
        }
    }
}

/// Copies a list of variables.
pub fn clone_variables(variables: &Vec<Variable>) -> (copy: Vec<Variable>)
    ensures
        variables_view(copy@) == variables_view(variables@),
{
    let mut copy: Vec<Variable> = Vec::new();
    let mut i: usize = 0;
    while i < variables.len()
        invariant
            i <= variables@.len(),
            copy@.len() == i,
            forall|k: int| 0 <= k < i ==> (#[trigger] copy@[k])@ == variables@[k]@,
        decreases variables@.len() - i,
    {
        copy.push(variables[i].clone());
        i = i + 1;
    }
    assert(variables_view(copy@) =~= variables_view(variables@));
    copy
}

/// The values of a list of expressions, in order.
pub open spec fn exprs_view(parts: Seq<Expr>) -> Seq<ExprModel> {
    Seq::new(parts.len(), |i: int| parts[i]@)
}

impl View for Expr {
    type V = ExprModel;

    open spec fn view(&self) -> ExprModel
        decreases self,
    {
        match self {
            Expr::Composition(parts) => ExprModel::Composition(
                Seq::new(
                    parts@.len(),
                    |i: int|
                        if 0 <= i < parts@.len() {
                            parts[i].view()
                        } else {
                            ExprModel::Operation(Seq::empty())
                        },
                ),
            ),
            Expr::Tensor(parts) => ExprModel::Tensor(
                Seq::new(
                    parts@.len(),
                    |i: int|
                        if 0 <= i < parts@.len() {
                            parts[i].view()
                        } else {
                            ExprModel::Operation(Seq::empty())
                        },
                ),
            ),
            Expr::Frobenius { inputs, outputs } => ExprModel::Frobenius {
                inputs: variables_view(inputs@),
                outputs: variables_view(outputs@),
            },
            Expr::Operation(name) => ExprModel::Operation(name@),
        }
    }
}

/// The variable that a name stands for: `_` is the anonymous variable.
pub open spec fn variable_of(name: Seq<char>) -> VariableModel {
    if name == seq!['_'] {
        VariableModel::Anonymous
    } else {
        VariableModel::Named(name)
    }
}

/// A variable as it is written.
pub open spec fn variable_text(variable: VariableModel) -> Seq<char> {
    match variable {
        VariableModel::Named(name) => name,
        VariableModel::Anonymous => seq!['_'],
    }
}

/// The first `upto` of `variables` as they are written, with one blank
/// between two.
pub open spec fn variables_text(variables: Seq<VariableModel>, upto: nat) -> Seq<char>
    decreases upto,
{
    if upto == 0 {
        Seq::empty()
    } else if upto == 1 {
        variable_text(variables[0])
    } else {
        variables_text(variables, (upto - 1) as nat) + seq![' '] + variable_text(
            variables[upto - 1],
        )
    }
}

/// A diagram as it is written: a composition in round brackets, a tensor
/// in curly brackets, a Frobenius node in square brackets with a dot
/// between its inputs and its outputs, an operation by its name.
pub open spec fn expr_text(expr: ExprModel) -> Seq<char>
    decreases expr, 0nat,
{
    match expr {
        ExprModel::Composition(parts) => seq!['('] + exprs_text(parts, parts.len()) + seq![')'],
        ExprModel::Tensor(parts) => seq!['{'] + exprs_text(parts, parts.len()) + seq!['}'],
        ExprModel::Frobenius { inputs, outputs } => seq!['['] + variables_text(
            inputs,
            inputs.len(),
        ) + seq![' ', '.', ' '] + variables_text(outputs, outputs.len()) + seq![']'],
        ExprModel::Operation(name) => name,
    }
}

/// The first `upto` of `parts` as they are written, with one blank between
/// two.
pub open spec fn exprs_text(parts: Seq<ExprModel>, upto: nat) -> Seq<char>
    decreases parts, upto,
{
    if upto == 0 || upto > parts.len() {
        Seq::empty()
    } else if upto == 1 {
        expr_text(parts[0])
    } else {
        exprs_text(parts, (upto - 1) as nat) + seq![' '] + expr_text(parts[upto - 1])
    }
}

impl Variable {
    /// The variable that a name stands for.
    pub fn from_name(name: &str) -> (variable: Variable)
        ensures
            variable@ == variable_of(name@),
    {
        proof {
            reveal_strlit("_");
        }
        let given = name.to_owned();
        let anonymous = "_".to_owned();
        assert(anonymous@ =~= seq!['_']);
        if given == anonymous {
            Variable::Anonymous
        } else {
            Variable::Named(given)
        }
    }

    /// The variable as it is written.
    pub fn to_string(&self) -> (text: String)
        ensures
            text@ == variable_text(self@),
    {
        proof {
            reveal_strlit("_");
        }
        match self {
            Variable::Named(name) => name.clone(),
            Variable::Anonymous => {
                let text = "_".to_owned();
                assert(text@ =~= seq!['_']);
                text
            },
        }
    }
}

impl FromStr for Variable {
    type Err = Infallible;

    fn from_str(name: &str) -> (result: Result<Self, Infallible>)
        ensures
            result is Ok,
            result->Ok_0@ == variable_of(name@),
    {
        Ok(Variable::from_name(name))
    }
}

/// Writes variables with one blank between two.
fn write_variables(text: &mut String, variables: &Vec<Variable>)
    ensures
        final(text)@ == old(text)@ + variables_text(variables_view(variables@), variables@.len()),
{
    let ghost before = text@;
    let ghost views = variables_view(variables@);
    let mut i: usize = 0;
    proof {
        reveal_strlit(" ");
        assert(text@ =~= before + variables_text(views, 0));
    }
    while i < variables.len()
        invariant
            i <= variables@.len(),
            views == variables_view(variables@),
            text@ == before + variables_text(views, i as nat),
        decreases variables@.len() - i,
    {
        let ghost earlier = text@;
        if i > 0 {
            text.append(" ");
        }
        text.append(variables[i].to_string().as_str());
        i = i + 1;
        proof {
            reveal_strlit(" ");
            assert(" "@ =~= seq![' ']);
            assert(views[i - 1] == variables@[i - 1]@);
            assert(text@ =~= before + variables_text(views, i as nat));
        }
    }
}

impl Expr {
    /// Copies a list of diagrams.
    fn clone_all(parts: &Vec<Expr>) -> (copy: Vec<Expr>)
        ensures
            copy@.len() == parts@.len(),
            forall|k: int| 0 <= k < parts@.len() ==> (#[trigger] copy@[k])@ == parts@[k]@,
        decreases parts, 1nat,
    {
        let mut copy: Vec<Expr> = Vec::new();
        let mut i: usize = 0;
        while i < parts.len()
            invariant
                i <= parts@.len(),
                copy@.len() == i,
                forall|k: int| 0 <= k < i ==> (#[trigger] copy@[k])@ == parts@[k]@,
            decreases parts@.len() - i,
        {
            copy.push(parts[i].clone());
            i = i + 1;
        }
        copy
    }

    /// The diagram as it is written.
    pub fn to_string(&self) -> (text: String)
        ensures
            text@ == expr_text(self@),
        decreases self, 0nat,
    {
        proof {
            reveal_strlit("(");
            reveal_strlit(")");
            reveal_strlit("{");
            reveal_strlit("}");
            reveal_strlit("[");
            reveal_strlit("]");
            reveal_strlit(" . ");
        }
        match self {
            Expr::Composition(parts) => {
                let mut text = "(".to_owned();
                Self::write_all(&mut text, parts);
                text.append(")");
                proof {
                    assert(self@->Composition_0 =~= exprs_view(parts@));
                    assert(text@ =~= expr_text(self@));
                }
                text
            },
            Expr::Tensor(parts) => {
                let mut text = "{".to_owned();
                Self::write_all(&mut text, parts);
                text.append("}");
                proof {
                    assert(self@->Tensor_0 =~= exprs_view(parts@));
                    assert(text@ =~= expr_text(self@));
                }
                text
            },
            Expr::Frobenius { inputs, outputs } => {
                let mut text = "[".to_owned();
                write_variables(&mut text, inputs);
                text.append(" . ");
                write_variables(&mut text, outputs);
                text.append("]");
                proof {
                    assert(" . "@ =~= seq![' ', '.', ' ']);
                    assert(text@ =~= expr_text(self@));
                }
                text
            },
            Expr::Operation(name) => name.clone(),
        }
    }

    /// Writes diagrams with one blank between two.
    fn write_all(text: &mut String, parts: &Vec<Expr>)
        ensures
            final(text)@ == old(text)@ + exprs_text(exprs_view(parts@), parts@.len()),
        decreases parts, 1nat,
    {
        let ghost before = text@;
        let ghost views = exprs_view(parts@);
        let mut i: usize = 0;
        proof {
            assert(text@ =~= before + exprs_text(views, 0));
        }
        while i < parts.len()
            invariant
                i <= parts@.len(),
                views == exprs_view(parts@),
                text@ == before + exprs_text(views, i as nat),
            decreases parts@.len() - i,
        {
            if i > 0 {
                text.append(" ");
            }
            text.append(parts[i].to_string().as_str());
            i = i + 1;
            proof {
                reveal_strlit(" ");
                assert(" "@ =~= seq![' ']);
                assert(text@ =~= before + exprs_text(views, i as nat));
            }
        }
    }
}

} // verus!
