use vstd::prelude::*;

verus! {

/// A parameter map: names mapped to ordered lists of byte blobs.
///
/// The entries are kept in insertion order; a later entry under a name
/// overrides every earlier one, so the map read through `lookup` has exactly
/// one value per name.
pub struct KeyParams {
    entries: Vec<(String, Vec<Vec<u8>>)>,
}

/// The value stored under `name` in a list of entries: the last entry with
/// that name wins.
pub open spec fn lookup(entries: Seq<(String, Vec<Vec<u8>>)>, name: Seq<char>) -> Option<
    Vec<Vec<u8>>,
>
    decreases entries.len(),
{
    if entries.len() == 0 {
        None
    } else if entries.last().0@ == name {
        Some(entries.last().1)
    } else {
        lookup(entries.drop_last(), name)
    }
}

/// Past the last entry named `name`, no entry changes what `lookup` gives.
proof fn lemma_lookup_suffix(entries: Seq<(String, Vec<Vec<u8>>)>, name: Seq<char>, i: int)
    requires
        0 <= i <= entries.len(),
        forall|j: int| i <= j < entries.len() ==> #[trigger] entries[j].0@ != name,
    ensures
        lookup(entries, name) == lookup(entries.subrange(0, i), name),
    decreases entries.len(),
{
    if entries.len() > i {
        assert(entries.drop_last().subrange(0, i) =~= entries.subrange(0, i));
        lemma_lookup_suffix(entries.drop_last(), name, i);
    } else {
        assert(entries.subrange(0, i) =~= entries);
    }
}

impl View for KeyParams {
    type V = Seq<(String, Vec<Vec<u8>>)>;

    closed spec fn view(&self) -> Seq<(String, Vec<Vec<u8>>)> {
        self.entries@
    }
}

impl KeyParams {
    /// The value stored under `name`.
    pub open spec fn spec_get(&self, name: Seq<char>) -> Option<Vec<Vec<u8>>> {
        lookup(self@, name)
    }

    /// An empty map.
    pub fn new() -> (r: KeyParams)
        ensures
            forall|name: Seq<char>| #[trigger] r.spec_get(name) is None,
    {
        let r = KeyParams { entries: Vec::new() };
        assert(r@.len() == 0);
        r
    }

    /// Stores `value` under `name`, replacing what was there.
    pub fn insert(&mut self, name: String, value: Vec<Vec<u8>>)
        ensures
            final(self).spec_get(name@) == Some(value),
            forall|other: Seq<char>|
                other != name@ ==> #[trigger] final(self).spec_get(other) == old(self).spec_get(
                    other,
                ),
    {
        let ghost prev = self@;
        self.entries.push((name, value));
        assert(self@.drop_last() =~= prev);
    }

    /// The list stored under `name`, if any.
    pub fn get(&self, name: &String) -> (r: Option<&Vec<Vec<u8>>>)
        ensures
            match r {
                Some(v) => self.spec_get(name@) == Some(*v),
                None => self.spec_get(name@) is None,
            },
    {
        let mut i: usize = self.entries.len();
        while i > 0
            invariant
                i <= self@.len(),
                self@ == self.entries@,
                forall|j: int| i <= j < self@.len() ==> #[trigger] self@[j].0@ != name@,
            decreases i,
        {
            proof {
                lemma_lookup_suffix(self@, name@, i as int);
            }
            if self.entries[i - 1].0 == *name {
                assert(self@.subrange(0, i as int).last() == self@[i - 1]);
                return Some(&self.entries[i - 1].1);
            }
            i = i - 1;
        }
        proof {
            lemma_lookup_suffix(self@, name@, 0);
        }
        None
    }

    /// Whether a value is stored under `name`.
    pub fn contains_key(&self, name: &String) -> (r: bool)
        ensures
            r == self.spec_get(name@) is Some,
    {
        self.get(name).is_some()
    }
}

} // verus!
