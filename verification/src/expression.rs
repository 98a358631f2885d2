//! Expressions: a value that is already there, or a variable that stands for
//! one until it is evaluated.

use vstd::prelude::*;
use crate::context::lookup;
use crate::context::Context;
use crate::context::StackView;
use crate::error::Error;
use crate::path::PathView;
use crate::scalar::Scalar;
use crate::value::Value;
use crate::value::ValueView;
use crate::variable::lemma_unresolved_index;
use crate::variable::Variable;
use crate::variable::VariableView;

verus! {

/// What an [`Expression`] stands for.
pub enum ExpressionView {
    Variable(VariableView),
    Literal(ValueView),
}

impl ExpressionView {
    /// The value of this expression over the scopes `frames`. A literal is
    /// its own value, whatever the scopes hold. A variable is resolved to a
    /// concrete path, and the path is looked up; a failure of either step is
    /// the failure of the whole.
    pub open spec fn evaluate(self, frames: StackView) -> Result<ValueView, Error>
        decreases self, 0nat,
    {
        match self {
            ExpressionView::Literal(value) => Ok(value),
            ExpressionView::Variable(variable) => match variable.resolve(frames) {
                Ok(path) => lookup(frames, path),
                Err(e) => Err(e),
            },
        }
    }

    /// The textual form: that of the value, or that of the variable.
    pub open spec fn text(self) -> Seq<char>
        decreases self, 0nat,
    {
        match self {
            ExpressionView::Literal(value) => value.text(),
            ExpressionView::Variable(variable) => variable.text(),
        }
    }
}

/// An un-evaluated value.
#[derive(Debug, PartialEq, Eq)]
pub enum Expression {
    /// Un-evaluated.
    Variable(Variable),
    /// Evaluated.
    Literal(Value),
}

impl View for Expression {
    type V = ExpressionView;

    open spec fn view(&self) -> ExpressionView
        decreases self,
    {
        match self {
            Expression::Variable(variable) => ExpressionView::Variable(variable@),
            Expression::Literal(value) => ExpressionView::Literal(value@),
        }
    }
}

impl Clone for Expression {
    fn clone(&self) -> (copy: Self)
        ensures
            copy@ == self@,
        decreases self,
    {
        match self {
            Expression::Variable(variable) => Expression::Variable(variable.clone()),
            Expression::Literal(value) => Expression::Literal(value.clone()),
        }
    }
}

impl Expression {
    /// The value that this expression holds, if it is a literal.
    pub open spec fn literal(self) -> Option<Value> {
        match self {
            Expression::Literal(x) => Some(x),
            Expression::Variable(_) => None,
        }
    }

    /// The variable that this expression holds, if it is one.
    pub open spec fn variable(self) -> Option<Variable> {
        match self {
            Expression::Literal(_) => None,
            Expression::Variable(x) => Some(x),
        }
    }

    /// Create an expression from a scalar literal.
    pub fn with_literal<S: Into<Scalar>>(literal: S) -> (expression: Self)
        ensures
            expression matches Expression::Literal(value) && call_ensures(
                Value::scalar::<S>,
                (literal,),
                value,
            ),
    {
        Expression::Literal(Value::scalar(literal))
    }

    /// Convert into a literal if possible.
    pub fn into_literal(self) -> (value: Option<Value>)
        ensures
            value == self.literal(),
    {
        match self {
            Expression::Literal(x) => Some(x),
            Expression::Variable(_) => None,
        }
    }

    /// Convert into a variable, if possible.
    pub fn into_variable(self) -> (variable: Option<Variable>)
        ensures
            variable == self.variable(),
    {
        match self {
            Expression::Literal(_) => None,
            Expression::Variable(x) => Some(x),
        }
    }

    /// Appends the textual form of this expression to `out`.
    pub fn append_text(&self, out: &mut String)
        ensures
            final(out)@ == old(out)@ + self@.text(),
        decreases self,
    {
        match self {
            Expression::Literal(x) => x.append_text(out),
            Expression::Variable(x) => x.append_text(out),
        }
    }

    /// The textual form: a literal shows as its value does, a variable as
    /// its path is written.
    pub fn to_text(&self) -> (text: String)
        ensures
            text@ == self@.text(),
    {
        let mut out = String::new();
        self.append_text(&mut out);
        assert(out@ =~= self@.text());
        out
    }

    /// Convert to a `Value`.
    ///
    /// A literal gives a copy of its value and never consults `context`. A
    /// variable is resolved to a concrete path, the path is looked up in the
    /// scopes of `context`, and a copy of what is found there is given. Where
    /// either step fails, its error is handed on as it is. Neither the
    /// expression nor the context is changed.
    pub fn evaluate(&self, context: &Context) -> (value: Result<Value, Error>)
        ensures
            match value {
                Ok(v) => self@.evaluate(context@) == Ok::<ValueView, Error>(v@),
                Err(e) => self@.evaluate(context@) == Err::<ValueView, Error>(e),
            },
        decreases self,
    {
        match self {
            Expression::Literal(x) => Ok(x.clone()),
            Expression::Variable(x) => {
                let path = match x.evaluate(context) {
                    Ok(path) => path,
                    Err(e) => {
                        return Err(e);
                    },
                };
                match context.stack().get(&path) {
                    Ok(found) => Ok(found.clone()),
                    Err(e) => Err(e),
                }
            },
        }
    }
}

/// An expression made from a scalar literal converts back into the value
/// that holds the scalar made from that literal.
pub proof fn lemma_with_literal_into_literal<S: Into<Scalar>>(
    literal: S,
    expression: Expression,
    converted: Option<Value>,
)
    requires
        call_ensures(Expression::with_literal::<S>, (literal,), expression),
        call_ensures(Expression::into_literal, (expression,), converted),
    ensures
        converted matches Some(value) && call_ensures(Value::scalar::<S>, (literal,), value),
{
}

/// An expression that holds a variable converts into no literal, and into
/// that very variable.
pub proof fn lemma_variable_conversions(variable: Variable)
    ensures
        Expression::Variable(variable).literal() is None,
        Expression::Variable(variable).variable() == Some(variable),
{
}

/// An expression that holds a value converts into no variable, and into that
/// very value.
pub proof fn lemma_literal_conversions(value: Value)
    ensures
        Expression::Literal(value).variable() is None,
        Expression::Literal(value).literal() == Some(value),
{
}

/// A literal evaluates to its own value over every chain of scopes, the empty
/// one included.
pub proof fn lemma_literal_ignores_scopes(value: ValueView, frames: StackView)
    ensures
        ExpressionView::Literal(value).evaluate(frames) == Ok::<ValueView, Error>(value),
        ExpressionView::Literal(value).evaluate(frames) == ExpressionView::Literal(value).evaluate(
            StackView::empty(),
        ),
{
}

/// A variable whose concrete path is bound evaluates to the value that the
/// path is bound to.
pub proof fn lemma_bound_variable(
    variable: VariableView,
    frames: StackView,
    path: PathView,
    value: ValueView,
)
    requires
        variable.resolve(frames) == Ok::<PathView, Error>(path),
        lookup(frames, path) == Ok::<ValueView, Error>(value),
    ensures
        ExpressionView::Variable(variable).evaluate(frames) == Ok::<ValueView, Error>(value),
{
}

/// A variable whose concrete path is unbound evaluates to the unbound-lookup
/// error.
pub proof fn lemma_unbound_variable(variable: VariableView, frames: StackView, path: PathView)
    requires
        variable.resolve(frames) == Ok::<PathView, Error>(path),
        lookup(frames, path) is Err,
    ensures
        ExpressionView::Variable(variable).evaluate(frames) == Err::<ValueView, Error>(
            Error::UnboundLookup,
        ),
{
}

/// A variable with an index that does not evaluate to a scalar evaluates to
/// the unresolved-path error, whatever its root is bound to.
pub proof fn lemma_unresolved_variable(variable: VariableView, frames: StackView, i: int)
    requires
        0 <= i < variable.indexes.len(),
        !(variable.indexes[i].evaluate(frames) matches Ok(ValueView::Scalar(_))),
    ensures
        ExpressionView::Variable(variable).evaluate(frames) == Err::<ValueView, Error>(
            Error::UnresolvedPath,
        ),
{
    lemma_unresolved_index(variable, frames, i);
}

} // verus!
