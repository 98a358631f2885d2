//! Objects: names bound to values, in the order in which the names were first
//! bound.

use vstd::prelude::*;
use crate::value::Value;
use crate::value::ValueView;

verus! {

/// What an [`Object`] stands for: its entries, each a key with its value, in
/// order.
pub type ObjectView = Seq<(Seq<char>, ValueView)>;

/// The value that `entries` binds to `key`: that of the first entry with this
/// key.
pub open spec fn binding(entries: ObjectView, key: Seq<char>) -> Option<ValueView>
    decreases entries.len(),
{
    if entries.len() == 0 {
        None
    } else if entries[0].0 == key {
        Some(entries[0].1)
    } else {
        binding(entries.drop_first(), key)
    }
}

/// `entries` with `key` bound to `value`: the first entry with this key gets
/// the new value, and where there is none, a new entry comes last.
pub open spec fn bind(entries: ObjectView, key: Seq<char>, value: ValueView) -> ObjectView
    decreases entries.len(),
{
    if entries.len() == 0 {
        seq![(key, value)]
    } else if entries[0].0 == key {
        entries.update(0, (key, value))
    } else {
        seq![entries[0]] + bind(entries.drop_first(), key, value)
    }
}

/// The texts of the first `n` entries of `entries`, each as `key: value`, with
/// `, ` between them.
pub open spec fn entries_text(entries: ObjectView, n: nat) -> Seq<char>
    decreases entries, n,
{
    if n == 0 || n > entries.len() {
        Seq::empty()
    } else {
        let before = entries_text(entries, (n - 1) as nat);
        let between = if n == 1 {
            Seq::empty()
        } else {
            seq![',', ' ']
        };
        before + between + entries[n - 1].0 + seq![':', ' '] + entries[n - 1].1.text()
    }
}

/// After `key` is bound to `value`, `key` is bound to `value`, and every other
/// key is bound as before.
pub proof fn lemma_bind_binding(
    entries: ObjectView,
    key: Seq<char>,
    value: ValueView,
    other: Seq<char>,
)
    ensures
        binding(bind(entries, key, value), other) == if other == key {
            Some(value)
        } else {
            binding(entries, other)
        },
    decreases entries.len(),
{
    let bound = bind(entries, key, value);
    if entries.len() == 0 {
        assert(bound.drop_first() =~= entries);
    } else if entries[0].0 == key {
        assert(bound.drop_first() =~= entries.drop_first());
    } else {
        let rest = entries.drop_first();
        lemma_bind_binding(rest, key, value, other);
        assert(bound[0] == entries[0]);
        assert(bound.drop_first() =~= bind(rest, key, value));
    }
}

/// Whether no entry before position `i` has `key`.
spec fn unbound_before(entries: ObjectView, key: Seq<char>, i: int) -> bool {
    forall|j: int| 0 <= j < i && j < entries.len() ==> (#[trigger] entries[j]).0 != key
}

/// Where the first entry with `key` stands at `i`, `key` is bound to that
/// entry's value, and binding it anew replaces the value there.
proof fn lemma_bound_at(entries: ObjectView, key: Seq<char>, i: int, value: ValueView)
    requires
        0 <= i < entries.len(),
        entries[i].0 == key,
        unbound_before(entries, key, i),
    ensures
        binding(entries, key) == Some(entries[i].1),
        bind(entries, key, value) == entries.update(i, (key, value)),
    decreases i,
{
    if i > 0 {
        let rest = entries.drop_first();
        assert(entries[0].0 != key);
        assert forall|j: int| 0 <= j < i - 1 && j < rest.len() implies (#[trigger] rest[j]).0
            != key by {
            assert(rest[j] == entries[j + 1]);
        }
        lemma_bound_at(rest, key, i - 1, value);
        assert(seq![entries[0]] + rest.update(i - 1, (key, value)) =~= entries.update(
            i,
            (key, value),
        ));
    }
}

/// Where no entry has `key`, `key` is unbound, and binding it adds an entry at
/// the end.
proof fn lemma_unbound(entries: ObjectView, key: Seq<char>, value: ValueView)
    requires
        unbound_before(entries, key, entries.len() as int),
    ensures
        binding(entries, key) is None,
        bind(entries, key, value) == entries.push((key, value)),
    decreases entries.len(),
{
    if entries.len() > 0 {
        let rest = entries.drop_first();
        assert(entries[0].0 != key);
        assert forall|j: int| 0 <= j < rest.len() implies (#[trigger] rest[j]).0 != key by {
            assert(rest[j] == entries[j + 1]);
        }
        lemma_unbound(rest, key, value);
        assert(seq![entries[0]] + rest.push((key, value)) =~= entries.push((key, value)));
    } else {
        assert(seq![(key, value)] =~= entries.push((key, value)));
    }
}

/// One binding of an [`Object`].
#[derive(Debug, PartialEq, Eq)]
struct Entry {
    key: String,
    value: Value,
}

/// Names bound to values.
#[derive(Debug, PartialEq, Eq)]
pub struct Object {
    entries: Vec<Entry>,
}

impl View for Object {
    type V = ObjectView;

    closed spec fn view(&self) -> ObjectView
        decreases self,
    {
        Seq::new(
            self.entries@.len(),
            |i: int|
                if 0 <= i < self.entries@.len() {
                    (self.entries@[i].key@, self.entries@[i].value@)
                } else {
                    (Seq::empty(), ValueView::Nil)
                },
        )
    }
}

impl Clone for Object {
    fn clone(&self) -> (copy: Self)
        ensures
            copy@ == self@,
        decreases self,
    {
        let mut entries: Vec<Entry> = Vec::new();
        let mut i: usize = 0;
        while i < self.entries.len()
            invariant
                i <= self.entries.len(),
                entries@.len() == i,
                forall|j: int|
                    0 <= j < i ==> entries@[j].key@ == self.entries@[j].key@ && entries@[j].value@
                        == self.entries@[j].value@,
            decreases self.entries.len() - i,
        {
            let entry = &self.entries[i];
            assert(decreases_to!(self.entries => self.entries[i as int]));
            entries.push(Entry { key: entry.key.clone(), value: entry.value.clone() });
            i += 1;
        }
        let copy = Object { entries };
        assert(copy@ =~= self@);
        copy
    }
}

impl Object {
    /// An object without entries.
    pub fn new() -> (object: Object)
        ensures
            object@ == ObjectView::empty(),
    {
        Object { entries: Vec::new() }
    }

    /// The position of the first entry with `key`.
    fn position(&self, key: &String) -> (found: Option<usize>)
        ensures
            match found {
                Some(i) => i < self@.len() && self@[i as int].0 == key@ && unbound_before(
                    self@,
                    key@,
                    i as int,
                ),
                None => unbound_before(self@, key@, self@.len() as int),
            },
    {
        let mut i: usize = 0;
        while i < self.entries.len()
            invariant
                i <= self.entries.len(),
                self.entries.len() == self@.len(),
                unbound_before(self@, key@, i as int),
            decreases self.entries.len() - i,
        {
            if self.entries[i].key == *key {
                return Some(i);
            }
            i += 1;
        }
        None
    }

    /// The value bound to `key`, if there is one.
    pub(crate) fn bound(&self, key: &String) -> (found: Option<&Value>)
        ensures
            match found {
                Some(value) => binding(self@, key@) == Some(value@),
                None => binding(self@, key@) is None,
            },
    {
        match self.position(key) {
            Some(i) => {
                proof {
                    lemma_bound_at(self@, key@, i as int, ValueView::Nil);
                }
                Some(&self.entries[i].value)
            },
            None => {
                proof {
                    lemma_unbound(self@, key@, ValueView::Nil);
                }
                None
            },
        }
    }

    /// The value bound to `key`, if there is one.
    pub fn get(&self, key: &str) -> (found: Option<&Value>)
        ensures
            match found {
                Some(value) => binding(self@, key@) == Some(value@),
                None => binding(self@, key@) is None,
            },
    {
        let owned = key.to_owned();
        self.bound(&owned)
    }

    /// Binds `key` to `value`. A key that was bound keeps its place among the
    /// entries; a new key comes last.
    pub fn insert(&mut self, key: &str, value: Value)
        ensures
            final(self)@ == bind(old(self)@, key@, value@),
    {
        let owned = key.to_owned();
        match self.position(&owned) {
            Some(i) => {
                proof {
                    lemma_bound_at(self@, key@, i as int, value@);
                }
                self.entries[i].value = value;
                assert(self@ =~= old(self)@.update(i as int, (key@, value@)));
            },
            None => {
                proof {
                    lemma_unbound(self@, key@, value@);
                }
                self.entries.push(Entry { key: owned, value });
                assert(self@ =~= old(self)@.push((key@, value@)));
            },
        }
    }

    /// Appends the textual form of this object to `out`.
    pub(crate) fn append_text(&self, out: &mut String)
        ensures
            final(out)@ == old(out)@ + entries_text(self@, self@.len()),
        decreases self,
    {
        let mut i: usize = 0;
        while i < self.entries.len()
            invariant
                i <= self.entries.len(),
                self.entries.len() == self@.len(),
                out@ == old(out)@ + entries_text(self@, i as nat),
            decreases self.entries.len() - i,
        {
            let ghost before = out@;
            let entry = &self.entries[i];
            assert(decreases_to!(self.entries => self.entries[i as int]));
            if i > 0 {
                out.append(", ");
            }
            out.append(entry.key.as_str());
            out.append(": ");
            entry.value.append_text(out);
            proof {
                reveal_strlit(", ");
                reveal_strlit(": ");
                let between = if i == 0 {
                    Seq::<char>::empty()
                } else {
                    seq![',', ' ']
                };
                assert(", "@ =~= seq![',', ' ']);
                assert(": "@ =~= seq![':', ' ']);
                assert(out@ =~= before + (between + self@[i as int].0 + seq![':', ' ']
                    + self@[i as int].1.text()));
            }
            i += 1;
        }
    }
}

} // verus!
