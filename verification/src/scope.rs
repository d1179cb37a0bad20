//! Variables that a script reads and writes.

use vstd::prelude::*;
use crate::value::{Dynamic, Value, Variant};
use crate::text::{str_eq, str_matches_range};

verus! {

/// Whether a variable may be assigned to.
#[derive(Clone, Copy, Debug, PartialEq, Eq, Structural)]
pub enum AccessMode {
    /// A variable.
    ReadWrite,
    /// A constant.
    ReadOnly,
}

/// One variable of a [`Scope`].
pub struct ScopeEntry {
    pub name: String,
    pub access: AccessMode,
    pub value: Dynamic,
}

/// The model of a [`ScopeEntry`].
pub ghost struct Entry {
    pub name: Seq<char>,
    pub access: AccessMode,
    pub value: Value,
}

impl View for ScopeEntry {
    type V = Entry;

    open spec fn view(&self) -> Entry {
        Entry { name: self.name@, access: self.access, value: self.value@ }
    }
}

/// A stack of variables; a later variable of a name hides an earlier one.
pub struct Scope {
    entries: Vec<ScopeEntry>,
}

impl View for Scope {
    type V = Seq<Entry>;

    closed spec fn view(&self) -> Seq<Entry> {
        self.entries@.map_values(|e: ScopeEntry| e@)
    }
}

/// The index of the last variable of that name, if any.
pub open spec fn find_last(s: Seq<Entry>, name: Seq<char>) -> Option<int>
    decreases s.len(),
{
    if s.len() == 0 {
        None
    } else if s.last().name == name {
        Some(s.len() - 1)
    } else {
        find_last(s.drop_last(), name)
    }
}

/// What `find_last` returns: the last index that holds the name.
pub proof fn lemma_find_last(s: Seq<Entry>, name: Seq<char>)
    ensures
        match find_last(s, name) {
            Some(i) => 0 <= i < s.len() && s[i].name == name
                && forall|j: int| i < j < s.len() ==> s[j].name != name,
            None => forall|j: int| 0 <= j < s.len() ==> s[j].name != name,
        },
    decreases s.len(),
{
    if s.len() > 0 {
        lemma_find_last(s.drop_last(), name);
        assert forall|j: int| 0 <= j < s.len() - 1 implies s.drop_last()[j] == s[j] by {}
    }
}

/// The scope after pushing a variable.
pub open spec fn push_entry_spec(s: Seq<Entry>, name: Seq<char>, access: AccessMode, value: Value) -> Seq<Entry> {
    s.push(Entry { name, access, value })
}

/// The value of the last variable of that name, if any.
pub open spec fn value_of_var(s: Seq<Entry>, name: Seq<char>) -> Option<Value> {
    match find_last(s, name) {
        Some(i) => Some(s[i].value),
        None => None,
    }
}

/// The entries of `s` whose name is not `name`, in order.
pub open spec fn without_name(s: Seq<Entry>, name: Seq<char>) -> Seq<Entry>
    decreases s.len(),
{
    if s.len() == 0 {
        Seq::empty()
    } else if s.last().name == name {
        without_name(s.drop_last(), name)
    } else {
        without_name(s.drop_last(), name).push(s.last())
    }
}

/// The constants of a scope that no later variable of the same name
/// hides, in order.
pub open spec fn constants_of(s: Seq<Entry>) -> Seq<Entry>
    decreases s.len(),
{
    if s.len() == 0 {
        Seq::empty()
    } else if s.last().access == AccessMode::ReadOnly {
        constants_of(s.drop_last()).push(s.last())
    } else {
        without_name(constants_of(s.drop_last()), s.last().name)
    }
}

/// Leaves out of `v` the entries named `name`.
fn remove_named(v: Vec<ScopeEntry>, name: &str) -> (r: Vec<ScopeEntry>)
    ensures
        entries_of(r@) == without_name(entries_of(v@), name@),
{
    let mut r: Vec<ScopeEntry> = Vec::new();
    let mut i: usize = 0;
    while i < v.len()
        invariant
            i <= v@.len(),
            entries_of(r@) == without_name(entries_of(v@.take(i as int)), name@),
        decreases v@.len() - i,
    {
        assert(entries_of(v@.take(i + 1)).drop_last() =~= entries_of(v@.take(i as int)));
        assert(entries_of(v@.take(i + 1)).last() == v@[i as int]@);
        let ghost before = r@;
        if !str_eq(v[i].name.as_str(), name) {
            r.push(v[i].copy());
            assert(entries_of(r@) =~= entries_of(before).push(v@[i as int]@));
        }
        i = i + 1;
    }
    assert(v@.take(v@.len() as int) =~= v@);
    r
}

/// The models of a list of entries.
pub open spec fn entries_of(v: Seq<ScopeEntry>) -> Seq<Entry> {
    v.map_values(|e: ScopeEntry| e@)
}

impl ScopeEntry {
    /// A copy of the entry.
    pub fn copy(&self) -> (r: ScopeEntry)
        ensures
            r@ == self@,
    {
        ScopeEntry { name: self.name.clone(), access: self.access, value: self.value.flatten_clone() }
    }
}

impl Scope {
    /// A scope of the given variables, in order.
    pub fn from_entries(entries: Vec<ScopeEntry>) -> (s: Scope)
        ensures
            s@ == entries_of(entries@),
    {
        Scope { entries }
    }

    /// Copies of the constants of the scope that no later variable of the
    /// same name hides, in order.
    pub fn constants(&self) -> (v: Vec<ScopeEntry>)
        ensures
            entries_of(v@) == constants_of(self@),
    {
        let mut v: Vec<ScopeEntry> = Vec::new();
        let n = self.len();
        let mut i: usize = 0;
        assert(self@.take(0) =~= Seq::<Entry>::empty());
        while i < n
            invariant
                n == self@.len(),
                i <= n,
                entries_of(v@) == constants_of(self@.take(i as int)),
            decreases n - i,
        {
            let e = self.get_entry(i);
            let ghost before = v@;
            assert(self@.take(i + 1).drop_last() =~= self@.take(i as int));
            if e.access == AccessMode::ReadOnly {
                v.push(e.copy());
                assert(entries_of(v@) =~= entries_of(before).push(e@));
            } else {
                v = remove_named(v, e.name.as_str());
            }
            i = i + 1;
        }
        assert(self@.take(n as int) =~= self@);
        v
    }

    /// An empty scope.
    pub fn new() -> (s: Scope)
        ensures
            s@ == Seq::<Entry>::empty(),
    {
        let s = Scope { entries: Vec::new() };
        assert(s@ =~= Seq::<Entry>::empty());
        s
    }

    /// The number of variables, hidden ones included.
    pub fn len(&self) -> (n: usize)
        ensures
            n == self@.len(),
    {
        assert(self.entries@.len() == self@.len());
        self.entries.len()
    }

    /// Whether the scope holds no variable.
    pub fn is_empty(&self) -> (b: bool)
        ensures
            b == (self@.len() == 0),
    {
        self.entries.len() == 0
    }

    /// Pushes a variable (or a constant) of that name.
    pub fn push_entry(&mut self, name: String, access: AccessMode, value: Dynamic)
        ensures
            final(self)@ == push_entry_spec(old(self)@, name@, access, value@),
    {
        let ghost name_v = name@;
        let ghost value_v = value@;
        self.entries.push(ScopeEntry { name, access, value });
        assert(self@ =~= push_entry_spec(old(self)@, name_v, access, value_v));
    }

    /// Pushes a variable of that name.
    pub fn push(&mut self, name: &str, value: Dynamic)
        ensures
            final(self)@ == push_entry_spec(old(self)@, name@, AccessMode::ReadWrite, value@),
    {
        self.push_entry(String::from_str(name), AccessMode::ReadWrite, value);
    }

    /// Pushes a constant of that name.
    pub fn push_constant(&mut self, name: &str, value: Dynamic)
        ensures
            final(self)@ == push_entry_spec(old(self)@, name@, AccessMode::ReadOnly, value@),
    {
        self.push_entry(String::from_str(name), AccessMode::ReadOnly, value);
    }

    /// The index of the last variable of that name.
    pub fn search(&self, name: &str) -> (r: Option<usize>)
        ensures
            match r {
                Some(i) => find_last(self@, name@) == Some(i as int),
                None => find_last(self@, name@) is None,
            },
    {
        let mut i = self.len();
        assert(self@.take(i as int) =~= self@);
        while i > 0
            invariant
                i <= self.entries.len(),
                find_last(self@, name@) == find_last(self@.take(i as int), name@),
            decreases i,
        {
            let ghost t = self@.take(i as int);
            assert(t.drop_last() =~= self@.take(i - 1));
            let e = self.get_entry(i - 1);
            if str_eq(e.name.as_str(), name) {
                return Some(i - 1);
            }
            i = i - 1;
        }
        None
    }

    /// The index of the last variable whose name is `cs[a..b]`.
    pub fn search_range(&self, cs: &Vec<char>, a: usize, b: usize) -> (r: Option<usize>)
        requires
            a <= b <= cs@.len(),
        ensures
            match r {
                Some(i) => find_last(self@, cs@.subrange(a as int, b as int)) == Some(i as int),
                None => find_last(self@, cs@.subrange(a as int, b as int)) is None,
            },
    {
        let ghost name = cs@.subrange(a as int, b as int);
        let mut i = self.len();
        assert(self@.take(i as int) =~= self@);
        while i > 0
            invariant
                i <= self@.len(),
                a <= b <= cs@.len(),
                name == cs@.subrange(a as int, b as int),
                find_last(self@, name) == find_last(self@.take(i as int), name),
            decreases i,
        {
            let ghost t = self@.take(i as int);
            assert(t.drop_last() =~= self@.take(i - 1));
            let e = self.get_entry(i - 1);
            if str_matches_range(e.name.as_str(), cs, a, b) {
                return Some(i - 1);
            }
            i = i - 1;
        }
        None
    }

    /// Whether a variable of that name is in scope.
    pub fn contains(&self, name: &str) -> (b: bool)
        ensures
            b == (find_last(self@, name@) is Some),
    {
        self.search(name).is_some()
    }

    /// The entry at an index.
    pub fn get_entry(&self, i: usize) -> (e: &ScopeEntry)
        requires
            i < self@.len(),
        ensures
            e@ == self@[i as int],
    {
        assert(self.entries@.len() == self@.len());
        &self.entries[i]
    }

    /// Replaces the value at an index.
    pub fn set_value_at(&mut self, i: usize, value: Dynamic)
        requires
            i < old(self)@.len(),
        ensures
            final(self)@ == old(self)@.update(
                i as int,
                Entry { name: old(self)@[i as int].name, access: old(self)@[i as int].access, value: value@ },
            ),
    {
        let ghost v = value@;
        let ghost e = old(self)@[i as int];
        assert(self.entries@.len() == self@.len());
        self.entries[i].value = value;
        assert(self@ =~= old(self)@.update(i as int, Entry { name: e.name, access: e.access, value: v }));
    }

    /// The value of the last variable of that name, cast into `T`; `None` where
    /// there is no such variable or its value is not a `T`.
    pub fn get_value<T: Variant>(&self, name: &str) -> (r: Option<T>)
        ensures
            match value_of_var(self@, name@) {
                Some(v) => if T::accepts(v) {
                    r matches Some(x) && T::value_of(x) == v
                } else {
                    r is None
                },
                None => r is None,
            },
    {
        proof {
            lemma_find_last(self@, name@);
        }
        match self.search(name) {
            Some(i) => T::try_cast(self.get_entry(i).value.flatten_clone()),
            None => None,
        }
    }
}

} // verus!
