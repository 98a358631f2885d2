//! Runtime values: nothing, a scalar, an array of values, or an object.

use vstd::prelude::*;
use crate::object::binding;
use crate::object::entries_text;
use crate::object::Object;
use crate::path::PathView;
use crate::scalar::Scalar;
use crate::scalar::ScalarView;

verus! {

/// What a [`Value`] stands for.
pub enum ValueView {
    Nil,
    Scalar(ScalarView),
    Array(Seq<ValueView>),
    Object(Seq<(Seq<char>, ValueView)>),
}

/// The texts of the first `n` values of `items`, one after the other.
pub open spec fn items_text(items: Seq<ValueView>, n: nat) -> Seq<char>
    decreases items, n,
{
    if n == 0 || n > items.len() {
        Seq::empty()
    } else {
        items_text(items, (n - 1) as nat) + items[n - 1].text()
    }
}

impl ValueView {
    /// The member that `index` selects: an element of an array by its
    /// position, counted from zero, or a value of an object by its key.
    /// Nothing else has members.
    pub open spec fn member(self, index: ScalarView) -> Option<ValueView> {
        match (self, index) {
            (ValueView::Array(items), ScalarView::Integer(i)) => if 0 <= i < items.len() {
                Some(items[i])
            } else {
                None
            },
            (ValueView::Object(entries), ScalarView::Text(key)) => binding(entries, key),
            _ => None,
        }
    }

    /// The value reached by taking the members that `path` names, one after
    /// the other.
    pub open spec fn descend(self, path: PathView) -> Option<ValueView>
        decreases path.len(),
    {
        if path.len() == 0 {
            Some(self)
        } else {
            match self.member(path[0]) {
                Some(inner) => inner.descend(path.drop_first()),
                None => None,
            }
        }
    }

    /// The textual form: nothing for `Nil`, a scalar's own text, the texts
    /// of an array's elements one after the other, and an object's entries as
    /// `key: value`, with `, ` between them.
    pub open spec fn text(self) -> Seq<char>
        decreases self, 0nat,
    {
        match self {
            ValueView::Nil => Seq::empty(),
            ValueView::Scalar(s) => s.text(),
            ValueView::Array(items) => items_text(items, items.len()),
            ValueView::Object(entries) => entries_text(entries, entries.len()),
        }
    }
}

/// A runtime value.
#[derive(Debug, PartialEq, Eq)]
pub enum Value {
    Nil,
    Scalar(Scalar),
    Array(Vec<Value>),
    Object(Object),
}

impl View for Value {
    type V = ValueView;

    open spec fn view(&self) -> ValueView
        decreases self,
    {
        match self {
            Value::Nil => ValueView::Nil,
            Value::Scalar(s) => ValueView::Scalar(s@),
            Value::Array(items) => ValueView::Array(
                Seq::new(
                    items@.len(),
                    |i: int|
                        if 0 <= i < items@.len() {
                            items@[i]@
                        } else {
                            ValueView::Nil
                        },
                ),
            ),
            Value::Object(object) => ValueView::Object(object@),
        }
    }
}

impl Clone for Value {
    fn clone(&self) -> (copy: Self)
        ensures
            copy@ == self@,
        decreases self,
    {
        match self {
            Value::Nil => Value::Nil,
            Value::Scalar(s) => Value::Scalar(s.clone()),
            Value::Array(items) => {
                let mut copies: Vec<Value> = Vec::new();
                let mut i: usize = 0;
                while i < items.len()
                    invariant
                        *self == Value::Array(*items),
                        i <= items.len(),
                        copies@.len() == i,
                        forall|j: int| 0 <= j < i ==> copies@[j]@ == items@[j]@,
                    decreases items.len() - i,
                {
                    assert(decreases_to!(*self => self->Array_0));
                    assert(decreases_to!(*items => items[i as int]));
                    copies.push(items[i].clone());
                    i += 1;
                }
                let copy = Value::Array(copies);
                assert(copy@->Array_0 =~= self@->Array_0);
                copy
            },
            Value::Object(object) => Value::Object(object.clone()),
        }
    }
}

impl Value {
    /// The value that holds the scalar made from `value`, by the conversion
    /// that `S` has into [`Scalar`].
    pub fn scalar<S: Into<Scalar>>(value: S) -> (made: Value)
        ensures
            made matches Value::Scalar(s) && call_ensures(<S as Into<Scalar>>::into, (value,), s),
    {
        Value::Scalar(value.into())
    }

    /// The scalar that this value holds, if it holds one.
    pub fn into_scalar(self) -> (scalar: Option<Scalar>)
        ensures
            scalar == match self {
                Value::Scalar(s) => Some(s),
                _ => None,
            },
    {
        match self {
            Value::Scalar(s) => Some(s),
            _ => None,
        }
    }

    /// The member that `index` selects, if there is one.
    pub fn get(&self, index: &Scalar) -> (found: Option<&Value>)
        ensures
            match found {
                Some(member) => self@.member(index@) == Some(member@),
                None => self@.member(index@) is None,
            },
    {
        match self {
            Value::Array(items) => match index {
                Scalar::Integer(i) => {
                    if 0 <= *i && (*i as u64) < (items.len() as u64) {
                        Some(&items[*i as usize])
                    } else {
                        None
                    }
                },
                _ => None,
            },
            Value::Object(object) => match index {
                Scalar::Text(key) => object.bound(key),
                _ => None,
            },
            _ => None,
        }
    }

    /// Appends the textual form of this value to `out`.
    pub fn append_text(&self, out: &mut String)
        ensures
            final(out)@ == old(out)@ + self@.text(),
        decreases self,
    {
        match self {
            Value::Nil => {
                assert(out@ =~= old(out)@ + self@.text());
            },
            Value::Scalar(s) => {
                let text = s.to_text();
                out.append(text.as_str());
            },
            Value::Array(items) => {
                let mut i: usize = 0;
                while i < items.len()
                    invariant
                        *self == Value::Array(*items),
                        i <= items.len(),
                        out@ == old(out)@ + items_text(self@->Array_0, i as nat),
                    decreases items.len() - i,
                {
                    assert(decreases_to!(*self => self->Array_0));
                    assert(decreases_to!(*items => items[i as int]));
                    items[i].append_text(out);
                    assert(self@->Array_0[i as int] == items@[i as int]@);
                    i += 1;
                }
            },
            Value::Object(object) => {
                object.append_text(out);
            },
        }
    }

    /// The textual form of this value.
    pub fn to_text(&self) -> (text: String)
        ensures
            text@ == self@.text(),
    {
        let mut out = String::new();
        self.append_text(&mut out);
        assert(out@ =~= self@.text());
        out
    }
}

} // verus!
