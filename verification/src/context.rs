//! The lookup environment: a chain of scopes, of which the innermost that
//! binds a name decides what the name means.

use vstd::prelude::*;
use crate::error::Error;
use crate::object::binding;
use crate::object::Object;
use crate::object::ObjectView;
use crate::path::Path;
use crate::path::PathView;
use crate::scalar::Scalar;
use crate::scalar::ScalarView;
use crate::value::Value;
use crate::value::ValueView;

verus! {

/// What a [`Stack`] stands for: its scopes, the innermost last.
pub type StackView = Seq<ObjectView>;

/// The innermost scope of `frames` that binds `name`. The innermost scope
/// comes last.
pub open spec fn innermost(frames: StackView, name: Seq<char>) -> Option<ObjectView>
    decreases frames.len(),
{
    if frames.len() == 0 {
        None
    } else if binding(frames.last(), name) is Some {
        Some(frames.last())
    } else {
        innermost(frames.drop_last(), name)
    }
}

/// What `path` is bound to in `frames`. The first segment is a name; the
/// innermost scope that binds it is taken as an object, and the whole path is
/// followed from there. A path that is empty, that starts with anything but a
/// name, whose name no scope binds, or that leads to a member that is not
/// there, is unbound.
pub open spec fn lookup(frames: StackView, path: PathView) -> Result<ValueView, Error> {
    if path.len() > 0 && path[0] is Text {
        match innermost(frames, path[0]->Text_0) {
            Some(frame) => match ValueView::Object(frame).descend(path) {
                Some(value) => Ok(value),
                None => Err(Error::UnboundLookup),
            },
            None => Err(Error::UnboundLookup),
        }
    } else {
        Err(Error::UnboundLookup)
    }
}

/// A scope that is entered shadows the scopes around it in the names that it
/// binds, and lets every other name through.
pub proof fn lemma_innermost_shadows(frames: StackView, frame: ObjectView, name: Seq<char>)
    ensures
        innermost(frames.push(frame), name) == if binding(frame, name) is Some {
            Some(frame)
        } else {
            innermost(frames, name)
        },
{
    assert(frames.push(frame).drop_last() =~= frames);
}

/// Without scopes every path is unbound, and no lookup fails in any other
/// way.
pub proof fn lemma_lookup_failure(frames: StackView, path: PathView)
    ensures
        lookup(StackView::empty(), path) == Err::<ValueView, Error>(Error::UnboundLookup),
        lookup(frames, path) is Err ==> lookup(frames, path) == Err::<ValueView, Error>(
            Error::UnboundLookup,
        ),
{
}

/// A chain of scopes, the innermost last.
#[derive(Debug)]
pub struct Stack {
    frames: Vec<Object>,
}

impl View for Stack {
    type V = StackView;

    closed spec fn view(&self) -> StackView {
        self.frames@.map_values(|frame: Object| frame@)
    }
}

/// Follows the segments of `path` from position `from` on, starting at
/// `start`.
fn walk<'a>(start: &'a Value, path: &Path, from: usize) -> (found: Option<&'a Value>)
    requires
        from <= path@.len(),
    ensures
        match found {
            Some(value) => start@.descend(path@.skip(from as int)) == Some(value@),
            None => start@.descend(path@.skip(from as int)) is None,
        },
{
    let mut current: &Value = start;
    let mut i: usize = from;
    while i < path.len()
        invariant
            from <= i <= path@.len(),
            start@.descend(path@.skip(from as int)) == current@.descend(path@.skip(i as int)),
        decreases path@.len() - i,
    {
        let segment = match path.get(i) {
            Some(segment) => segment,
            None => {
                return None;
            },
        };
        proof {
            assert(path@.skip(i as int).drop_first() =~= path@.skip(i + 1));
        }
        match current.get(segment) {
            Some(member) => {
                current = member;
            },
            None => {
                return None;
            },
        }
        i += 1;
    }
    Some(current)
}

impl Stack {
    /// A chain without scopes.
    pub fn new() -> (stack: Stack)
        ensures
            stack@ == StackView::empty(),
    {
        let stack = Stack { frames: Vec::new() };
        assert(stack@ =~= StackView::empty());
        stack
    }

    /// Enters `frame` as the new innermost scope.
    pub fn push_frame(&mut self, frame: Object)
        ensures
            final(self)@ == old(self)@.push(frame@),
    {
        self.frames.push(frame);
        assert(self@ =~= old(self)@.push(frame@));
    }

    /// What the innermost scope that binds `name` binds it to.
    fn root(&self, name: &String) -> (found: Option<&Value>)
        ensures
            match found {
                Some(value) => innermost(self@, name@) matches Some(frame) && binding(frame, name@)
                    == Some(value@),
                None => innermost(self@, name@) is None,
            },
    {
        let mut i: usize = self.frames.len();
        assert(self@.take(i as int) =~= self@);
        while i > 0
            invariant
                i <= self.frames.len(),
                self.frames.len() == self@.len(),
                innermost(self@, name@) == innermost(self@.take(i as int), name@),
            decreases i,
        {
            i -= 1;
            proof {
                assert(self@.take(i + 1).drop_last() =~= self@.take(i as int));
                assert(self@.take(i + 1).last() == self.frames@[i as int]@);
            }
            match self.frames[i].bound(name) {
                Some(value) => {
                    return Some(value);
                },
                None => {},
            }
        }
        None
    }

    /// The value that `path` is bound to.
    pub fn get(&self, path: &Path) -> (found: Result<&Value, Error>)
        ensures
            match found {
                Ok(value) => lookup(self@, path@) == Ok::<ValueView, Error>(value@),
                Err(e) => lookup(self@, path@) == Err::<ValueView, Error>(e),
            },
    {
        let name = match path.get(0) {
            Some(Scalar::Text(name)) => name,
            _ => {
                return Err(Error::UnboundLookup);
            },
        };
        let first = match self.root(name) {
            Some(first) => first,
            None => {
                return Err(Error::UnboundLookup);
            },
        };
        proof {
            assert(path@.drop_first() =~= path@.skip(1));
        }
        match walk(first, path, 1) {
            Some(value) => Ok(value),
            None => Err(Error::UnboundLookup),
        }
    }
}

/// What an evaluation may consult.
#[derive(Debug)]
pub struct Context {
    stack: Stack,
}

impl View for Context {
    type V = StackView;

    closed spec fn view(&self) -> StackView {
        self.stack@
    }
}

impl Context {
    /// A context without scopes, in which every path is unbound.
    pub fn new() -> (context: Context)
        ensures
            context@ == StackView::empty(),
    {
        Context { stack: Stack::new() }
    }

    /// A context over the scopes of `stack`.
    pub fn with_stack(stack: Stack) -> (context: Context)
        ensures
            context@ == stack@,
    {
        Context { stack }
    }

    /// The scopes.
    pub fn stack(&self) -> (stack: &Stack)
        ensures
            stack@ == self@,
    {
        &self.stack
    }
}

} // verus!
