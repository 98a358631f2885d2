//! Variables: paths into the data whose segments may themselves have to be
//! evaluated.
//!
//! A variable owns its indexes, and an index that is a variable owns its own:
//! no path can contain itself. Resolving a variable therefore comes to an end,
//! which the `decreases` clauses below have Verus check.

use vstd::prelude::*;
use crate::context::Context;
use crate::context::StackView;
use crate::error::Error;
use crate::expression::Expression;
use crate::expression::ExpressionView;
use crate::path::Path;
use crate::path::PathView;
use crate::scalar::Scalar;
use crate::scalar::ScalarView;
use crate::value::Value;
use crate::value::ValueView;

verus! {

/// What a [`Variable`] stands for: a root and the indexes that follow it.
pub struct VariableView {
    pub root: ScalarView,
    pub indexes: Seq<ExpressionView>,
}

/// How an index shows within a path: a literal text as a dot and the text,
/// any other index as its own text in square brackets.
pub open spec fn index_text(index: ExpressionView) -> Seq<char>
    decreases index, 1nat,
{
    match index {
        ExpressionView::Literal(ValueView::Scalar(ScalarView::Text(name))) => seq!['.'] + name,
        _ => seq!['['] + index.text() + seq![']'],
    }
}

impl VariableView {
    /// The concrete path of the root and the first `n` indexes, over the
    /// scopes `frames`. Each index is evaluated and has to give a scalar;
    /// where one fails or gives anything else, the path is unresolved.
    pub open spec fn resolve_prefix(self, frames: StackView, n: nat) -> Result<PathView, Error>
        decreases self, n,
    {
        if n == 0 || n > self.indexes.len() {
            Ok(seq![self.root])
        } else {
            match (self.resolve_prefix(frames, (n - 1) as nat), self.indexes[n - 1].evaluate(frames)) {
                (Ok(path), Ok(ValueView::Scalar(index))) => Ok(path.push(index)),
                _ => Err(Error::UnresolvedPath),
            }
        }
    }

    /// The concrete path of this variable over the scopes `frames`.
    pub open spec fn resolve(self, frames: StackView) -> Result<PathView, Error>
        decreases self, self.indexes.len() + 1,
    {
        self.resolve_prefix(frames, self.indexes.len())
    }

    /// The text of the root and the first `n` indexes.
    pub open spec fn text_prefix(self, n: nat) -> Seq<char>
        decreases self, n,
    {
        if n == 0 || n > self.indexes.len() {
            self.root.text()
        } else {
            self.text_prefix((n - 1) as nat) + index_text(self.indexes[n - 1])
        }
    }

    /// The textual form: the root, then each index as [`index_text`] shows it.
    pub open spec fn text(self) -> Seq<char>
        decreases self, self.indexes.len() + 1,
    {
        self.text_prefix(self.indexes.len())
    }
}

/// Once a prefix of the indexes is unresolved, every longer prefix is
/// unresolved too.
pub proof fn lemma_unresolved_prefix(variable: VariableView, frames: StackView, n: nat, m: nat)
    requires
        n <= m <= variable.indexes.len(),
        variable.resolve_prefix(frames, n) is Err,
    ensures
        variable.resolve_prefix(frames, m) == Err::<PathView, Error>(Error::UnresolvedPath),
    decreases m,
{
    if n < m {
        lemma_unresolved_prefix(variable, frames, n, (m - 1) as nat);
    }
}

/// Where an index does not evaluate to a scalar, the path is unresolved.
pub proof fn lemma_unresolved_index(variable: VariableView, frames: StackView, i: int)
    requires
        0 <= i < variable.indexes.len(),
        !(variable.indexes[i].evaluate(frames) matches Ok(ValueView::Scalar(_))),
    ensures
        variable.resolve(frames) == Err::<PathView, Error>(Error::UnresolvedPath),
{
    lemma_unresolved_prefix(variable, frames, (i + 1) as nat, variable.indexes.len());
}

/// Where every index evaluates to a scalar, the path of the first `n` indexes
/// is the root followed by those scalars, in order.
pub proof fn lemma_resolved_prefix(variable: VariableView, frames: StackView, n: nat)
    requires
        n <= variable.indexes.len(),
        forall|i: int|
            0 <= i < n ==> (#[trigger] variable.indexes[i]).evaluate(frames) matches Ok(
                ValueView::Scalar(_),
            ),
    ensures
        variable.resolve_prefix(frames, n) matches Ok(path) && path.len() == n + 1 && path[0]
            == variable.root && forall|i: int|
            0 <= i < n ==> (#[trigger] variable.indexes[i]).evaluate(frames) == Ok::<
                ValueView,
                Error,
            >(ValueView::Scalar(path[i + 1])),
    decreases n,
{
    if n > 0 {
        lemma_resolved_prefix(variable, frames, (n - 1) as nat);
        assert(variable.indexes[n - 1].evaluate(frames) matches Ok(ValueView::Scalar(_)));
    }
}

/// A reference to a value: a root name and the indexes to take from there.
#[derive(Debug, PartialEq, Eq)]
pub struct Variable {
    variable: Scalar,
    indexes: Vec<Expression>,
}

impl View for Variable {
    type V = VariableView;

    closed spec fn view(&self) -> VariableView
        decreases self,
    {
        VariableView {
            root: self.variable@,
            indexes: Seq::new(
                self.indexes@.len(),
                |i: int|
                    if 0 <= i < self.indexes@.len() {
                        self.indexes@[i]@
                    } else {
                        ExpressionView::Literal(ValueView::Nil)
                    },
            ),
        }
    }
}

impl Clone for Variable {
    fn clone(&self) -> (copy: Self)
        ensures
            copy@ == self@,
        decreases self,
    {
        let mut indexes: Vec<Expression> = Vec::new();
        let mut i: usize = 0;
        while i < self.indexes.len()
            invariant
                i <= self.indexes.len(),
                indexes@.len() == i,
                forall|j: int| 0 <= j < i ==> indexes@[j]@ == self.indexes@[j]@,
            decreases self.indexes.len() - i,
        {
            assert(decreases_to!(self.indexes => self.indexes[i as int]));
            indexes.push(self.indexes[i].clone());
            i += 1;
        }
        let copy = Variable { variable: self.variable.clone(), indexes };
        assert(copy@.indexes =~= self@.indexes);
        copy
    }
}

impl Variable {
    /// The variable that consists of the root `value` alone.
    pub fn with_literal<S: Into<Scalar>>(value: S) -> (variable: Variable)
        ensures
            variable@.indexes.len() == 0,
            exists|root: Scalar|
                call_ensures(<S as Into<Scalar>>::into, (value,), root) && variable@.root == root@,
    {
        let variable = Variable { variable: value.into(), indexes: Vec::new() };
        assert(call_ensures(<S as Into<Scalar>>::into, (value,), variable.variable));
        variable
    }

    /// This variable with the scalar made from `value` added as its last
    /// index.
    pub fn push_literal<S: Into<Scalar>>(self, value: S) -> (variable: Variable)
        ensures
            exists|index: Scalar|
                call_ensures(<S as Into<Scalar>>::into, (value,), index) && variable@ == (
                VariableView {
                    root: self@.root,
                    indexes: self@.indexes.push(
                        ExpressionView::Literal(ValueView::Scalar(index@)),
                    ),
                }),
    {
        let index: Scalar = value.into();
        let variable = self.push_index(Expression::Literal(Value::Scalar(index)));
        assert(call_ensures(<S as Into<Scalar>>::into, (value,), index));
        variable
    }

    /// This variable with `index` added as its last index.
    pub fn push_index(self, index: Expression) -> (variable: Variable)
        ensures
            variable@ == (VariableView { root: self@.root, indexes: self@.indexes.push(index@) }),
    {
        let mut variable = self;
        variable.indexes.push(index);
        assert(variable@.indexes =~= self@.indexes.push(index@));
        variable
    }

    /// Evaluates the indexes against `context`, in order, and gives the
    /// concrete path: the root followed by the scalars that the indexes
    /// evaluate to. Where an index fails to evaluate, or evaluates to
    /// something that is no scalar, the path is unresolved.
    pub fn evaluate(&self, context: &Context) -> (path: Result<Path, Error>)
        ensures
            match path {
                Ok(p) => self@.resolve(context@) == Ok::<PathView, Error>(p@),
                Err(e) => self@.resolve(context@) == Err::<PathView, Error>(e),
            },
        decreases self,
    {
        let mut path = Path::with_index(self.variable.clone());
        let mut i: usize = 0;
        while i < self.indexes.len()
            invariant
                i <= self.indexes.len(),
                self.indexes.len() == self@.indexes.len(),
                self@.resolve_prefix(context@, i as nat) == Ok::<PathView, Error>(path@),
            decreases self.indexes.len() - i,
        {
            assert(decreases_to!(self.indexes => self.indexes[i as int]));
            match self.indexes[i].evaluate(context) {
                Ok(Value::Scalar(index)) => {
                    path.push(index);
                },
                _ => {
                    proof {
                        lemma_unresolved_prefix(
                            self@,
                            context@,
                            (i + 1) as nat,
                            self@.indexes.len(),
                        );
                    }
                    return Err(Error::UnresolvedPath);
                },
            }
            i += 1;
        }
        Ok(path)
    }

    /// Appends the textual form of this variable to `out`.
    pub fn append_text(&self, out: &mut String)
        ensures
            final(out)@ == old(out)@ + self@.text(),
        decreases self,
    {
        let root = self.variable.to_text();
        out.append(root.as_str());
        let mut i: usize = 0;
        while i < self.indexes.len()
            invariant
                i <= self.indexes.len(),
                self.indexes.len() == self@.indexes.len(),
                out@ == old(out)@ + self@.text_prefix(i as nat),
            decreases self.indexes.len() - i,
        {
            let ghost before = out@;
            assert(decreases_to!(self.indexes => self.indexes[i as int]));
            match &self.indexes[i] {
                Expression::Literal(Value::Scalar(Scalar::Text(name))) => {
                    out.append(".");
                    out.append(name.as_str());
                    proof {
                        reveal_strlit(".");
                        assert("."@ =~= seq!['.']);
                        assert(self@.indexes[i as int] == ExpressionView::Literal(
                            ValueView::Scalar(ScalarView::Text(name@)),
                        ));
                        assert(out@ =~= before + index_text(self@.indexes[i as int]));
                    }
                },
                index => {
                    out.append("[");
                    index.append_text(out);
                    out.append("]");
                    proof {
                        reveal_strlit("[");
                        reveal_strlit("]");
                        assert("["@ =~= seq!['[']);
                        assert("]"@ =~= seq![']']);
                        assert(self@.indexes[i as int] == index@);
                        assert(index_text(index@) == seq!['['] + index@.text() + seq![']']);
                        assert(out@ =~= before + index_text(self@.indexes[i as int]));
                    }
                },
            }
            assert(out@ =~= old(out)@ + self@.text_prefix((i + 1) as nat));
            i += 1;
        }
    }

    /// The textual form of this variable.
    pub fn to_text(&self) -> (text: String)
        ensures
            text@ == self@.text(),
    {
        let mut out = String::new();
        self.append_text(&mut out);
        assert(out@ =~= self@.text());
        out
    }
}

} // verus!
