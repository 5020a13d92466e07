//! Values filed under host names: a small association list that keeps the order in which the
//! names first came, and holds each name once.
use vstd::prelude::*;

verus! {

/// `str`'s `==` of the standard library: two string slices are equal exactly when they hold the
/// same characters.
pub assume_specification[ <str as PartialEq>::eq ](a: &str, b: &str) -> (same: bool)
    ensures
        same == (a@ == b@),
;

/// The index of the first entry at or after `from` that carries `name`, and the number of
/// entries where there is none.
pub open spec fn spec_find<T>(entries: Seq<(Seq<char>, T)>, name: Seq<char>, from: int) -> int
    decreases entries.len() - from,
{
    if from < 0 || from >= entries.len() {
        entries.len() as int
    } else if entries[from].0 == name {
        from
    } else {
        spec_find(entries, name, from + 1)
    }
}

/// What is filed under `name`, if anything.
pub open spec fn spec_lookup<T>(entries: Seq<(Seq<char>, T)>, name: Seq<char>) -> Option<T> {
    let at = spec_find(entries, name, 0);
    if at < entries.len() {
        Some(entries[at].1)
    } else {
        None
    }
}

/// The entries after `value` has been filed under `name`: in the place of what was filed there
/// before, or at the end where the name is new.
pub open spec fn spec_insert<T>(entries: Seq<(Seq<char>, T)>, name: Seq<char>, value: T) -> Seq<
    (Seq<char>, T),
> {
    let at = spec_find(entries, name, 0);
    if at < entries.len() {
        entries.update(at, (name, value))
    } else {
        entries.push((name, value))
    }
}

/// No name occurs in two entries.
pub open spec fn distinct_names<T>(entries: Seq<(Seq<char>, T)>) -> bool {
    forall|i: int, j: int| 0 <= i < j < entries.len() ==> entries[i].0 != entries[j].0
}

/// What `spec_find` returns lies between `from` and the number of entries, carries the name
/// where it is an index, and no entry between `from` and it carries the name.
pub proof fn lemma_find<T>(entries: Seq<(Seq<char>, T)>, name: Seq<char>, from: int)
    requires
        0 <= from <= entries.len(),
    ensures
        from <= spec_find(entries, name, from) <= entries.len(),
        spec_find(entries, name, from) < entries.len() ==> entries[spec_find(
            entries,
            name,
            from,
        )].0 == name,
        forall|j: int| from <= j < spec_find(entries, name, from) ==> entries[j].0 != name,
    decreases entries.len() - from,
{
    if from < entries.len() && entries[from].0 != name {
        lemma_find(entries, name, from + 1);
    }
}

/// An index whose entry carries the name, with no such entry before it, is what `spec_find`
/// returns.
pub proof fn lemma_find_is_first<T>(entries: Seq<(Seq<char>, T)>, name: Seq<char>, at: int)
    requires
        0 <= at <= entries.len(),
        at < entries.len() ==> entries[at].0 == name,
        forall|j: int| 0 <= j < at ==> entries[j].0 != name,
    ensures
        spec_find(entries, name, 0) == at,
{
    lemma_find(entries, name, 0);
}

/// Two lists that carry the same names in the same places find each name in the same place.
pub proof fn lemma_find_same_names<T, U>(
    entries: Seq<(Seq<char>, T)>,
    others: Seq<(Seq<char>, U)>,
    name: Seq<char>,
    from: int,
)
    requires
        entries.len() == others.len(),
        forall|i: int| 0 <= i < entries.len() ==> entries[i].0 == others[i].0,
    ensures
        spec_find(entries, name, from) == spec_find(others, name, from),
    decreases entries.len() - from,
{
    if 0 <= from < entries.len() && entries[from].0 != name {
        lemma_find_same_names(entries, others, name, from + 1);
    }
}

/// After `value` has been filed under `name`, a look-up of `name` gives `value`, and a look-up
/// of any other name gives what it gave before.
pub proof fn lemma_lookup_after_insert<T>(
    entries: Seq<(Seq<char>, T)>,
    name: Seq<char>,
    value: T,
    other: Seq<char>,
)
    ensures
        spec_lookup(spec_insert(entries, name, value), other) == if other == name {
            Some(value)
        } else {
            spec_lookup(entries, other)
        },
{
    let after = spec_insert(entries, name, value);
    let at = spec_find(entries, name, 0);
    lemma_find(entries, name, 0);
    lemma_find(entries, other, 0);
    lemma_find(after, other, 0);
    if other == name {
        lemma_find_is_first(after, name, at);
    } else {
        let there = spec_find(entries, other, 0);
        if there < entries.len() {
            lemma_find_is_first(after, other, there);
        } else {
            lemma_find_is_first(after, other, after.len() as int);
        }
    }
}

/// Filing twice under one name leaves what filing the second value alone would leave.
pub proof fn lemma_insert_twice<T>(entries: Seq<(Seq<char>, T)>, name: Seq<char>, first: T, second: T)
    ensures
        spec_insert(spec_insert(entries, name, first), name, second) == spec_insert(
            entries,
            name,
            second,
        ),
{
    let once = spec_insert(entries, name, first);
    let at = spec_find(entries, name, 0);
    lemma_find(entries, name, 0);
    lemma_find_is_first(once, name, at);
    assert(spec_insert(once, name, second) =~= spec_insert(entries, name, second));
}

/// Filing a value keeps each name in one entry.
pub proof fn lemma_insert_keeps_distinct<T>(entries: Seq<(Seq<char>, T)>, name: Seq<char>, value: T)
    requires
        distinct_names(entries),
    ensures
        distinct_names(spec_insert(entries, name, value)),
{
    lemma_find(entries, name, 0);
}

/// One host name and what is filed under it.
struct HostEntry<T> {
    name: String,
    value: T,
}

/// Values filed under host names. A name is taken as it is given: upper and lower case differ.
pub struct HostMap<T> {
    entries: Vec<HostEntry<T>>,
}

impl<T> View for HostMap<T> {
    type V = Seq<(Seq<char>, T)>;

    /// The entries in the order in which their names first came.
    closed spec fn view(&self) -> Seq<(Seq<char>, T)> {
        Seq::new(self.entries@.len(), |i: int| (self.entries@[i].name@, self.entries@[i].value))
    }
}

impl<T> HostMap<T> {
    #[verifier::type_invariant]
    spec fn names_once(&self) -> bool {
        distinct_names(self@)
    }

    /// A map with no entry.
    pub fn new() -> (map: Self)
        ensures
            map@ == Seq::<(Seq<char>, T)>::empty(),
    {
        let map = HostMap { entries: Vec::new() };
        assert(map@ =~= Seq::<(Seq<char>, T)>::empty());
        map
    }

    /// The number of entries. Each of them has a name of its own.
    pub fn len(&self) -> (n: usize)
        ensures
            n == self@.len(),
            distinct_names(self@),
    {
        proof {
            use_type_invariant(self);
        }
        self.entries.len()
    }

    /// The name of the entry at `at`.
    pub(crate) fn name_at(&self, at: usize) -> (name: &String)
        requires
            at < self@.len(),
        ensures
            name@ == self@[at as int].0,
    {
        &self.entries[at].name
    }

    /// What the entry at `at` holds.
    pub(crate) fn value_at(&self, at: usize) -> (value: &T)
        requires
            at < self@.len(),
        ensures
            *value == self@[at as int].1,
    {
        &self.entries[at].value
    }

    /// Exchanges what the entry at `at` holds for `value`. The names stay as they are.
    pub(crate) fn swap_value_at(&mut self, at: usize, value: &mut T)
        requires
            at < old(self)@.len(),
        ensures
            *final(value) == old(self)@[at as int].1,
            final(self)@ == old(self)@.update(at as int, (old(self)@[at as int].0, *old(value))),
    {
        proof {
            use_type_invariant(&*self);
        }
        // The entries are taken out, changed, and put back as a whole.
        let mut entries: Vec<HostEntry<T>> = Vec::new();
        assert(self@.len() == self.entries@.len());
        core::mem::swap(&mut entries, &mut self.entries);
        core::mem::swap(&mut entries[at].value, value);
        assert(Seq::new(entries@.len(), |i: int| (entries@[i].name@, entries@[i].value))
            =~= old(self)@.update(at as int, (old(self)@[at as int].0, *old(value))));
        self.entries = entries;
    }

    /// The index of the entry that carries `name`, and the number of entries where none does.
    pub fn find(&self, name: &str) -> (at: usize)
        ensures
            at == spec_find(self@, name@, 0),
    {
        let mut at: usize = 0;
        while at < self.entries.len()
            invariant
                at <= self.entries.len(),
                self@.len() == self.entries.len(),
                spec_find(self@, name@, 0) == spec_find(self@, name@, at as int),
            decreases self.entries.len() - at,
        {
            if *self.entries[at].name.as_str() == *name {
                return at;
            }
            at = at + 1;
        }
        at
    }

    /// What is filed under `name`, if anything.
    pub fn get(&self, name: &str) -> (found: Option<&T>)
        ensures
            match found {
                Some(value) => spec_lookup(self@, name@) == Some(*value),
                None => spec_lookup(self@, name@).is_none(),
            },
    {
        let at = self.find(name);
        if at < self.entries.len() {
            Some(&self.entries[at].value)
        } else {
            None
        }
    }

    /// Files `value` under `name`. What was filed under that name before is dropped.
    pub fn insert(&mut self, name: String, value: T)
        ensures
            final(self)@ == spec_insert(old(self)@, name@, value),
            distinct_names(final(self)@),
    {
        proof {
            use_type_invariant(&*self);
            lemma_insert_keeps_distinct(self@, name@, value);
        }
        let at = self.find(name.as_str());
        // The entries are taken out, changed, and put back as a whole.
        let mut entries: Vec<HostEntry<T>> = Vec::new();
        assert(self@.len() == self.entries@.len());
        core::mem::swap(&mut entries, &mut self.entries);
        if at < entries.len() {
            entries.set(at, HostEntry { name, value });
        } else {
            entries.push(HostEntry { name, value });
        }
        assert(Seq::new(entries@.len(), |i: int| (entries@[i].name@, entries@[i].value))
            =~= spec_insert(old(self)@, name@, value));
        self.entries = entries;
    }
}

} // verus!
