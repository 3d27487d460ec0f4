//! A map from text to text.
use crate::text::same;
use vstd::prelude::*;
use vstd::string::*;

verus! {

/// A map from text to text that keeps its keys in the order in which they came.
pub struct TextMap {
    entries: Vec<(String, String)>,
}

/// What a list of entries maps; where a key occurs twice, the later entry counts.
pub open spec fn map_of(entries: Seq<(String, String)>) -> Map<Seq<char>, Seq<char>>
    decreases entries.len(),
{
    if entries.len() == 0 {
        Map::empty()
    } else {
        map_of(entries.drop_last()).insert(entries.last().0@, entries.last().1@)
    }
}

/// No key occurs twice.
pub open spec fn distinct_keys(entries: Seq<(String, String)>) -> bool {
    forall|i: int, j: int|
        0 <= i < j < entries.len() ==> (#[trigger] entries[i]).0@ != (#[trigger] entries[j]).0@
}

impl TextMap {
    #[verifier::type_invariant]
    spec fn inv(&self) -> bool {
        distinct_keys(self.entries@)
    }
}

impl View for TextMap {
    type V = Map<Seq<char>, Seq<char>>;

    closed spec fn view(&self) -> Map<Seq<char>, Seq<char>> {
        map_of(self.entries@)
    }
}

proof fn lookup(entries: Seq<(String, String)>, key: Seq<char>, i: int)
    requires
        -1 <= i < entries.len(),
        i >= 0 ==> entries[i].0@ == key,
        forall|j: int| i < j < entries.len() ==> (#[trigger] entries[j]).0@ != key,
    ensures
        map_of(entries).dom().contains(key) == (i >= 0),
        i >= 0 ==> map_of(entries)[key] == entries[i].1@,
    decreases entries.len(),
{
    if entries.len() > 0 && i < entries.len() - 1 {
        assert(entries[entries.len() - 1].0@ != key);
        assert forall|j: int| i < j < entries.drop_last().len() implies (
        #[trigger] entries.drop_last()[j]).0@ != key by {
            assert(entries[j].0@ != key);
        }
        lookup(entries.drop_last(), key, i);
    }
}

proof fn replaced(entries: Seq<(String, String)>, i: int, e: (String, String))
    requires
        0 <= i < entries.len(),
        entries[i].0@ == e.0@,
        forall|j: int| i < j < entries.len() ==> (#[trigger] entries[j]).0@ != e.0@,
    ensures
        map_of(entries.update(i, e)) == map_of(entries).insert(e.0@, e.1@),
    decreases entries.len(),
{
    let up = entries.update(i, e);
    if i == entries.len() - 1 {
        assert(up.drop_last() == entries.drop_last());
        assert(map_of(up) =~= map_of(entries).insert(e.0@, e.1@));
    } else {
        let front = entries.drop_last();
        assert(up.drop_last() == front.update(i, e));
        assert forall|j: int| i < j < front.len() implies (#[trigger] front[j]).0@ != e.0@ by {
            assert(entries[j].0@ != e.0@);
        }
        replaced(front, i, e);
        assert(entries[entries.len() - 1].0@ != e.0@);
        assert(map_of(up) =~= map_of(entries).insert(e.0@, e.1@));
    }
}

proof fn empty_map(entries: Seq<(String, String)>)
    ensures
        entries.len() == 0 <==> map_of(entries) == Map::<Seq<char>, Seq<char>>::empty(),
{
    if entries.len() > 0 {
        assert(map_of(entries).dom().contains(entries.last().0@));
    }
}

impl TextMap {
    pub fn new() -> (r: TextMap)
        ensures
            r@ == Map::<Seq<char>, Seq<char>>::empty(),
    {
        TextMap { entries: Vec::new() }
    }

    /// The position behind the last entry with this key, or 0.
    fn position(&self, key: &str) -> (r: usize)
        ensures
            r <= self.entries@.len(),
            r > 0 ==> self.entries@[r - 1].0@ == key@,
            forall|j: int| r <= j < self.entries@.len() ==> (#[trigger] self.entries@[j]).0@ != key@,
    {
        let mut i: usize = self.entries.len();
        while i > 0
            invariant
                i <= self.entries@.len(),
                forall|j: int| i <= j < self.entries@.len() ==> (#[trigger] self.entries@[j]).0@ != key@,
            decreases i,
        {
            if same(self.entries[i - 1].0.as_str(), key) {
                return i;
            }
            i = i - 1;
        }
        0
    }

    pub fn get(&self, key: &str) -> (r: Option<&String>)
        ensures
            match r {
                Some(v) => self@.dom().contains(key@) && v@ == self@[key@],
                None => !self@.dom().contains(key@),
            },
    {
        let i: usize = self.position(key);
        proof {
            lookup(self.entries@, key@, i - 1);
        }
        if i > 0 {
            Some(&self.entries[i - 1].1)
        } else {
            None
        }
    }

    pub fn insert(&mut self, key: String, value: String)
        ensures
            final(self)@ == old(self)@.insert(key@, value@),
    {
        proof {
            use_type_invariant(&*self);
        }
        let ghost before = self.entries@;
        let i: usize = self.position(key.as_str());
        let mut entries: Vec<(String, String)> = Vec::new();
        core::mem::swap(&mut self.entries, &mut entries);
        if i > 0 {
            proof {
                replaced(before, i - 1, (key, value));
            }
            entries.set(i - 1, (key, value));
        } else {
            entries.push((key, value));
            assert(entries@.drop_last() == before);
        }
        self.entries = entries;
    }

    pub fn is_empty(&self) -> (r: bool)
        ensures
            r == (self@ == Map::<Seq<char>, Seq<char>>::empty()),
    {
        proof {
            empty_map(self.entries@);
        }
        self.entries.len() == 0
    }

    /// The entries, in the order in which their keys came.
    pub fn entries(&self) -> (r: &Vec<(String, String)>)
        ensures
            map_of(r@) == self@,
            distinct_keys(r@),
    {
        proof {
            use_type_invariant(self);
        }
        &self.entries
    }
}

impl Default for TextMap {
    fn default() -> (r: TextMap)
        ensures
            r@ == Map::<Seq<char>, Seq<char>>::empty(),
    {
        TextMap::new()
    }
}

} // verus!
