//! An insertion-ordered association list whose lookup returns the first
//! entry of a name.
use vstd::prelude::*;
use crate::text::same_text;

verus! {

/// A named value.
#[derive(Clone, Debug, PartialEq, Eq)]
pub struct Entry<T> {
    pub name: String,
    pub value: T,
}

impl<T> Entry<T> {
    pub fn new(name: String, value: T) -> (r: Self)
        ensures
            r.name == name,
            r.value == value,
    {
        Entry { name, value }
    }
}

/// The value of the first pair of `ps` whose name is `name`.
pub open spec fn lookup<T>(ps: Seq<(Seq<char>, T)>, name: Seq<char>) -> Option<T>
    decreases ps.len(),
{
    if ps.len() == 0 {
        None
    } else if ps[0].0 == name {
        Some(ps[0].1)
    } else {
        lookup(ps.drop_first(), name)
    }
}

/// The names and values of a list of entries.
pub open spec fn pairs_of<T>(es: Seq<Entry<T>>) -> Seq<(Seq<char>, T)> {
    es.map_values(|e: Entry<T>| (e.name@, e.value))
}

/// Entries in the order they were inserted. Names may repeat; a lookup finds
/// the earliest entry of a name.
#[derive(Clone, Debug, PartialEq, Eq)]
pub struct OrderedMap<T>(pub Vec<Entry<T>>);

impl<T> OrderedMap<T> {
    pub open spec fn view(&self) -> Seq<(Seq<char>, T)> {
        pairs_of(self.0@)
    }

    pub open spec fn spec_get(&self, name: Seq<char>) -> Option<T> {
        lookup(self@, name)
    }

    pub fn new() -> (r: Self)
        ensures
            r@ == Seq::<(Seq<char>, T)>::empty(),
            r.0@ == Seq::<Entry<T>>::empty(),
    {
        let v: Vec<Entry<T>> = Vec::new();
        assert(pairs_of(v@) =~= Seq::<(Seq<char>, T)>::empty());
        OrderedMap(v)
    }

    /// Appends an entry, whether or not the name is already there.
    pub fn insert(&mut self, name: String, value: T)
        ensures
            final(self).0@ == old(self).0@.push(Entry { name, value }),
            final(self)@ == old(self)@.push((name@, value)),
    {
        self.0.push(Entry::new(name, value));
        assert(pairs_of(self.0@) =~= pairs_of(old(self).0@).push((name@, value)));
    }

    /// The value of the first entry called `name`.
    pub fn get(&self, name: &str) -> (r: Option<&T>)
        ensures
            r is None <==> self.spec_get(name@) is None,
            r matches Some(v) ==> self.spec_get(name@) == Some(*v),
    {
        let n = self.0.len();
        let mut i: usize = 0;
        assert(self@.subrange(0, n as int) =~= self@);
        while i < n
            invariant
                n == self@.len(),
                i <= n,
                lookup(self@, name@) == lookup(self@.subrange(i as int, n as int), name@),
            decreases n - i,
        {
            let ghost rest = self@.subrange(i as int, n as int);
            assert(rest.drop_first() =~= self@.subrange(i + 1, n as int));
            if same_text(&self.0[i].name, name) {
                return Some(&self.0[i].value);
            }
            i = i + 1;
        }
        None
    }

    /// The entries, in insertion order.
    pub fn entries(&self) -> (r: &Vec<Entry<T>>)
        ensures
            r@ == self.0@,
    {
        &self.0
    }

    pub fn len(&self) -> (r: usize)
        ensures
            r == self@.len(),
    {
        self.0.len()
    }

    /// A map holding the given pairs as entries, in order.
    pub fn from_pairs(pairs: Vec<(String, T)>) -> (r: Self)
        ensures
            r.0@.len() == pairs@.len(),
            forall|i: int|
                0 <= i < pairs@.len() ==> #[trigger] r.0@[i] == (Entry { name: pairs@[i].0, value: pairs@[i].1 }),
    {
        let mut pairs = pairs;
        let ghost orig = pairs@;
        let mut rev: Vec<Entry<T>> = Vec::new();
        while pairs.len() > 0
            invariant
                pairs@.len() + rev@.len() == orig.len(),
                pairs@ == orig.subrange(0, pairs@.len() as int),
                forall|k: int|
                    0 <= k < rev@.len() ==> #[trigger] rev@[k] == (Entry {
                        name: orig[orig.len() - 1 - k].0,
                        value: orig[orig.len() - 1 - k].1,
                    }),
            decreases pairs@.len(),
        {
            let (name, value) = pairs.pop().unwrap();
            rev.push(Entry::new(name, value));
        }
        let mut out: Vec<Entry<T>> = Vec::new();
        while rev.len() > 0
            invariant
                rev@.len() + out@.len() == orig.len(),
                forall|k: int|
                    0 <= k < rev@.len() ==> #[trigger] rev@[k] == (Entry {
                        name: orig[orig.len() - 1 - k].0,
                        value: orig[orig.len() - 1 - k].1,
                    }),
                forall|k: int|
                    0 <= k < out@.len() ==> #[trigger] out@[k] == (Entry { name: orig[k].0, value: orig[k].1 }),
            decreases rev@.len(),
        {
            let e = rev.pop().unwrap();
            out.push(e);
        }
        OrderedMap(out)
    }
}

impl<T> Default for OrderedMap<T> {
    fn default() -> (r: Self)
        ensures
            r@ == Seq::<(Seq<char>, T)>::empty(),
    {
        OrderedMap::new()
    }
}

} // verus!
