//! The expression layer of a template engine.
//!
//! An [`Expression`] is either a literal [`Value`] or a [`Variable`], a path
//! into the data whose indexes may be expressions themselves. Evaluating an
//! expression against a [`Context`] gives a value: a literal gives its own,
//! a variable is first resolved to a concrete [`Path`], which is then looked
//! up in the context's [`Stack`] of scopes, where the innermost scope that
//! binds a name shadows the others.
//!
//! Every type has a view, its mathematical content, and the meaning of each
//! operation is a spec function over views: `evaluate` and `text` on
//! `ExpressionView`, `resolve` on `VariableView`, `lookup` and `innermost` on
//! a sequence of scopes, `member` and `descend` on `ValueView`, `binding` and
//! `bind` on the entries of an object. The executable functions are proved
//! to compute exactly these, and the proof functions named `lemma_..` state
//! what follows from the definitions.

pub mod context;
pub mod error;
pub mod expression;
pub mod object;
pub mod path;
pub mod scalar;
pub mod value;
pub mod variable;

pub use context::Context;
pub use context::Stack;
pub use error::Error;
pub use expression::Expression;
pub use object::Object;
pub use path::Path;
pub use scalar::Scalar;
pub use value::Value;
pub use variable::Variable;
