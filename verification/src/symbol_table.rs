//! The variable store: a frame of names and values, and the frames around it.

use crate::interpreter::{NumValue, NumValueView};
use vstd::prelude::*;

verus! {

/// A frame of variables with, possibly, the frame that encloses it.
///
/// The frame is a list of names with their values. Where a name stands in the
/// list more than once, its first entry counts.
#[derive(Debug)]
pub struct SymbolTable {
    pub symbols: Vec<(String, NumValue)>,
    pub parent: Option<Box<SymbolTable>>,
}

/// The model of a [`SymbolTable`]: the names of a frame with their values,
/// and the model of the frame around it.
pub struct StoreView {
    pub frame: Map<Seq<char>, NumValueView>,
    pub parent: Option<Box<StoreView>>,
}

impl StoreView {
    /// The value of `name`: that of the innermost frame that holds the name.
    pub open spec fn lookup(self, name: Seq<char>) -> Option<NumValueView>
        decreases self,
    {
        if self.frame.contains_key(name) {
            Some(self.frame[name])
        } else {
            match self.parent {
                Some(parent) => parent.lookup(name),
                None => None,
            }
        }
    }

    /// The store with `name` bound to `value` in its innermost frame.
    pub open spec fn inserted(self, name: Seq<char>, value: NumValueView) -> StoreView {
        StoreView { frame: self.frame.insert(name, value), parent: self.parent }
    }

    /// The store with `value` for `name` in the innermost frame that holds
    /// the name; the store itself where no frame holds it.
    pub open spec fn rebound(self, name: Seq<char>, value: NumValueView) -> StoreView
        decreases self,
    {
        if self.frame.contains_key(name) {
            StoreView { frame: self.frame.insert(name, value), parent: self.parent }
        } else {
            match self.parent {
                Some(parent) => StoreView {
                    frame: self.frame,
                    parent: Some(Box::new(parent.rebound(name, value))),
                },
                None => self,
            }
        }
    }

    /// The store without `name` in its innermost frame.
    pub open spec fn removed(self, name: Seq<char>) -> StoreView {
        StoreView { frame: self.frame.remove(name), parent: self.parent }
    }
}

/// The value that the entries give `name`, if any: that of the first entry
/// with that name.
pub open spec fn entry_of(entries: Seq<(String, NumValue)>, name: Seq<char>) -> Option<
    NumValueView,
>
    decreases entries.len(),
{
    if entries.len() == 0 {
        None
    } else if entries[0].0@ == name {
        Some(entries[0].1@)
    } else {
        entry_of(entries.drop_first(), name)
    }
}

/// Entries before the first one named `name` do not count for `name`.
pub proof fn lemma_entry_of_skip(entries: Seq<(String, NumValue)>, name: Seq<char>, i: int)
    requires
        0 <= i <= entries.len(),
        forall|j: int| 0 <= j < i ==> entries[j].0@ != name,
    ensures
        entry_of(entries, name) == entry_of(entries.skip(i), name),
    decreases i,
{
    if i == 0 {
        assert(entries.skip(0) =~= entries);
    } else {
        let rest = entries.drop_first();
        assert forall|j: int| 0 <= j < i - 1 implies rest[j].0@ != name by {
            assert(rest[j] == entries[j + 1]);
        }
        lemma_entry_of_skip(rest, name, i - 1);
        assert(rest.skip(i - 1) =~= entries.skip(i));
    }
}

/// Where no entry is named `name`, the entries give it no value.
pub proof fn lemma_entry_of_none(entries: Seq<(String, NumValue)>, name: Seq<char>)
    requires
        forall|j: int| 0 <= j < entries.len() ==> entries[j].0@ != name,
    ensures
        entry_of(entries, name) is None,
{
    lemma_entry_of_skip(entries, name, entries.len() as int);
}

/// Replacing the first entry named `name` gives `name` the new value and
/// leaves every other name as it was.
pub proof fn lemma_entry_of_update(
    entries: Seq<(String, NumValue)>,
    i: int,
    entry: (String, NumValue),
    other: Seq<char>,
)
    requires
        0 <= i < entries.len(),
        forall|j: int| 0 <= j < i ==> entries[j].0@ != entry.0@,
        entries[i].0@ == entry.0@,
    ensures
        entry_of(entries.update(i, entry), other) == if other == entry.0@ {
            Some(entry.1@)
        } else {
            entry_of(entries, other)
        },
    decreases i,
{
    let updated = entries.update(i, entry);
    if i == 0 {
        assert(updated.drop_first() =~= entries.drop_first());
    } else {
        let rest = entries.drop_first();
        assert forall|j: int| 0 <= j < i - 1 implies rest[j].0@ != entry.0@ by {
            assert(rest[j] == entries[j + 1]);
        }
        lemma_entry_of_update(rest, i - 1, entry, other);
        assert(updated.drop_first() =~= rest.update(i - 1, entry));
    }
}

/// A new entry at the end, under a name that no entry has yet, gives that
/// name its value and leaves every other name as it was.
pub proof fn lemma_entry_of_push(
    entries: Seq<(String, NumValue)>,
    entry: (String, NumValue),
    other: Seq<char>,
)
    requires
        forall|j: int| 0 <= j < entries.len() ==> entries[j].0@ != entry.0@,
    ensures
        entry_of(entries.push(entry), other) == if other == entry.0@ {
            Some(entry.1@)
        } else {
            entry_of(entries, other)
        },
    decreases entries.len(),
{
    let pushed = entries.push(entry);
    if entries.len() == 0 {
        assert(pushed.drop_first() =~= entries);
    } else {
        let rest = entries.drop_first();
        assert forall|j: int| 0 <= j < rest.len() implies rest[j].0@ != entry.0@ by {
            assert(rest[j] == entries[j + 1]);
        }
        lemma_entry_of_push(rest, entry, other);
        assert(pushed.drop_first() =~= rest.push(entry));
    }
}

/// Taking an entry out leaves every name but its own as it was.
pub proof fn lemma_entry_of_remove(entries: Seq<(String, NumValue)>, i: int, other: Seq<char>)
    requires
        0 <= i < entries.len(),
        entries[i].0@ != other,
    ensures
        entry_of(entries.remove(i), other) == entry_of(entries, other),
    decreases i,
{
    let removed = entries.remove(i);
    if i == 0 {
        assert(removed =~= entries.drop_first());
    } else {
        let rest = entries.drop_first();
        lemma_entry_of_remove(rest, i - 1, other);
        assert(removed.drop_first() =~= rest.remove(i - 1));
    }
}

/// The names of the entries with their values.
pub open spec fn frame_of(entries: Seq<(String, NumValue)>) -> Map<Seq<char>, NumValueView> {
    Map::new(
        |name: Seq<char>| entry_of(entries, name) is Some,
        |name: Seq<char>| entry_of(entries, name)->0,
    )
}

/// Replacing the first entry named `name` binds `name` anew and leaves the
/// other names alone.
pub proof fn lemma_frame_of_update(
    entries: Seq<(String, NumValue)>,
    i: int,
    entry: (String, NumValue),
)
    requires
        0 <= i < entries.len(),
        forall|j: int| 0 <= j < i ==> entries[j].0@ != entry.0@,
        entries[i].0@ == entry.0@,
    ensures
        frame_of(entries.update(i, entry)) == frame_of(entries).insert(entry.0@, entry.1@),
{
    assert forall|other: Seq<char>|
        entry_of(entries.update(i, entry), other) == if other == entry.0@ {
            Some(entry.1@)
        } else {
            entry_of(entries, other)
        } by {
        lemma_entry_of_update(entries, i, entry, other);
    }
    assert(frame_of(entries.update(i, entry)) =~= frame_of(entries).insert(entry.0@, entry.1@));
}

impl SymbolTable {
    /// The names of this frame with their values.
    pub open spec fn frame(&self) -> Map<Seq<char>, NumValueView> {
        frame_of(self.symbols@)
    }

    /// The number of frames around this one.
    pub open spec fn depth(&self) -> nat
        decreases self,
    {
        match self.parent {
            Some(parent) => 1 + parent.depth(),
            None => 0,
        }
    }

    /// The frames from this one outwards.
    pub open spec fn model(&self) -> StoreView
        decreases self,
    {
        StoreView {
            frame: self.frame(),
            parent: match self.parent {
                Some(parent) => Some(Box::new(parent.model())),
                None => None,
            },
        }
    }

    /// An empty frame with nothing around it.
    pub fn new() -> (r: SymbolTable)
        ensures
            r@ == (StoreView { frame: Map::<Seq<char>, NumValueView>::empty(), parent: None }),
    {
        let r = SymbolTable { symbols: Vec::new(), parent: None };
        assert(r.frame() =~= Map::<Seq<char>, NumValueView>::empty());
        r
    }

    /// The index of the first entry named `name`, or the number of entries.
    fn position_of(&self, name: &String) -> (i: usize)
        ensures
            i <= self.symbols.len(),
            forall|j: int| 0 <= j < i ==> self.symbols@[j].0@ != name@,
            i < self.symbols.len() ==> self.symbols@[i as int].0@ == name@,
    {
        let mut i: usize = 0;
        while i < self.symbols.len()
            invariant
                i <= self.symbols.len(),
                forall|j: int| 0 <= j < i ==> self.symbols@[j].0@ != name@,
            decreases self.symbols.len() - i,
        {
            if self.symbols[i].0 == *name {
                return i;
            }
            i += 1;
        }
        i
    }

    /// Gives `name` the value `symbol` in this frame, whether or not the
    /// frame held the name before.
    pub fn insert(&mut self, name: String, symbol: NumValue)
        ensures
            final(self)@ == old(self)@.inserted(name@, symbol@),
            final(self).parent == old(self).parent,
    {
        let i = self.position_of(&name);
        let ghost before = self.symbols@;
        let ghost entry = (name, symbol);
        if i < self.symbols.len() {
            self.symbols.set(i, (name, symbol));
            proof {
                assert forall|other: Seq<char>|
                    entry_of(self.symbols@, other) == if other == entry.0@ {
                        Some(entry.1@)
                    } else {
                        entry_of(before, other)
                    } by {
                    lemma_entry_of_update(before, i as int, entry, other);
                }
            }
        } else {
            self.symbols.push((name, symbol));
            proof {
                assert forall|other: Seq<char>|
                    entry_of(self.symbols@, other) == if other == entry.0@ {
                        Some(entry.1@)
                    } else {
                        entry_of(before, other)
                    } by {
                    lemma_entry_of_push(before, entry, other);
                }
            }
        }
        assert(self.frame() =~= old(self).frame().insert(entry.0@, entry.1@));
    }

    /// The value of `name` in the innermost frame that holds it, from this
    /// frame outwards.
    pub fn get(&self, name: &str) -> (r: Option<&NumValue>)
        ensures
            match r {
                Some(v) => self@.lookup(name@) == Some(v@),
                None => self@.lookup(name@) is None,
            },
        decreases self,
    {
        let owned = name.to_owned();
        let i = self.position_of(&owned);
        proof {
            lemma_entry_of_skip(self.symbols@, name@, i as int);
        }
        if i < self.symbols.len() {
            Some(&self.symbols[i].1)
        } else {
            match &self.parent {
                Some(parent) => parent.get(name),
                None => None,
            }
        }
    }

    /// Takes `name` out of this frame; the frames around it keep theirs.
    pub fn remove(&mut self, name: String)
        ensures
            final(self)@ == old(self)@.removed(name@),
            final(self).parent == old(self).parent,
    {
        let mut i = self.position_of(&name);
        while i < self.symbols.len()
            invariant
                self.parent == old(self).parent,
                i <= self.symbols.len(),
                forall|j: int| 0 <= j < i ==> self.symbols@[j].0@ != name@,
                i < self.symbols.len() ==> self.symbols@[i as int].0@ == name@,
                forall|other: Seq<char>|
                    other != name@ ==> entry_of(self.symbols@, other) == entry_of(
                        old(self).symbols@,
                        other,
                    ),
            decreases self.symbols.len(),
        {
            let ghost before = self.symbols@;
            self.symbols.remove(i);
            proof {
                assert forall|other: Seq<char>| other != name@ implies entry_of(
                    self.symbols@,
                    other,
                ) == entry_of(old(self).symbols@, other) by {
                    lemma_entry_of_remove(before, i as int, other);
                }
            }
            i = self.position_of(&name);
        }
        proof {
            lemma_entry_of_none(self.symbols@, name@);
        }
        assert(self.frame() =~= old(self).frame().remove(name@));
    }

    /// The value of `name` in the innermost frame that holds it, to be
    /// written in place.
    pub fn get_mut(&mut self, name: &str) -> (r: Option<&mut NumValue>)
        ensures
            match r {
                Some(v) => old(self)@.lookup(name@) == Some(v@) && final(self)@ == old(
                    self,
                )@.rebound(name@, final(v)@),
                None => old(self)@.lookup(name@) is None && *final(self) == *old(self),
            },
        decreases old(self).depth(),
    {
        let owned = name.to_owned();
        let i = self.position_of(&owned);
        proof {
            lemma_entry_of_skip(self.symbols@, name@, i as int);
        }
        if i < self.symbols.len() {
            proof {
                let before = self.symbols@;
                assert forall|value: NumValue| #[trigger]
                    frame_of(before.update(i as int, (before[i as int].0, value))) == frame_of(
                        before,
                    ).insert(name@, value@) by {
                    lemma_frame_of_update(before, i as int, (before[i as int].0, value));
                }
            }
            let found = &mut self.symbols[i].1;
            Some(found)
        } else {
            match &mut self.parent {
                Some(parent) => parent.get_mut(name),
                None => None,
            }
        }
    }

    /// Puts the frame `parent` around this one.
    pub fn set_parent(&mut self, parent: Box<SymbolTable>)
        ensures
            final(self).symbols == old(self).symbols,
            final(self).parent == Some(parent),
            final(self)@ == (StoreView {
                frame: old(self)@.frame,
                parent: Some(Box::new(parent@)),
            }),
    {
        self.parent = Some(parent);
    }
}

/// Entries with the same names and values, one for one, give every name the
/// same value.
pub proof fn lemma_entry_of_alike(
    a: Seq<(String, NumValue)>,
    b: Seq<(String, NumValue)>,
    name: Seq<char>,
)
    requires
        a.len() == b.len(),
        forall|i: int| 0 <= i < a.len() ==> a[i].0@ == b[i].0@ && a[i].1@ == b[i].1@,
    ensures
        entry_of(a, name) == entry_of(b, name),
    decreases a.len(),
{
    if a.len() > 0 {
        let (ra, rb) = (a.drop_first(), b.drop_first());
        assert forall|i: int| 0 <= i < ra.len() implies ra[i].0@ == rb[i].0@ && ra[i].1@
            == rb[i].1@ by {
            assert(ra[i] == a[i + 1] && rb[i] == b[i + 1]);
        }
        lemma_entry_of_alike(ra, rb, name);
    }
}

impl Clone for SymbolTable {
    /// A store of its own with the same frames.
    fn clone(&self) -> (r: Self)
        ensures
            r@ == self@,
        decreases self.depth(),
    {
        let mut symbols: Vec<(String, NumValue)> = Vec::new();
        let mut i: usize = 0;
        while i < self.symbols.len()
            invariant
                i <= self.symbols.len(),
                symbols.len() == i,
                forall|j: int|
                    0 <= j < i ==> symbols@[j].0@ == self.symbols@[j].0@ && symbols@[j].1@
                        == self.symbols@[j].1@,
            decreases self.symbols.len() - i,
        {
            let name = self.symbols[i].0.clone();
            let value = self.symbols[i].1.clone();
            symbols.push((name, value));
            i += 1;
        }
        let parent = match &self.parent {
            Some(parent) => Some(Box::new((&**parent).clone())),
            None => None,
        };
        let r = SymbolTable { symbols, parent };
        proof {
            assert forall|name: Seq<char>|
                entry_of(r.symbols@, name) == entry_of(self.symbols@, name) by {
                lemma_entry_of_alike(r.symbols@, self.symbols@, name);
            }
            assert(r.frame() =~= self.frame());
        }
        r
    }
}

impl View for SymbolTable {
    type V = StoreView;

    open spec fn view(&self) -> StoreView {
        self.model()
    }
}

} // verus!
