//! A small map from names to texts, kept as a vector of distinct entries.
use vstd::prelude::*;
use crate::text::{copy_str, str_eq};

verus! {

/// The model of entries: each name with its text.
pub open spec fn entry_views(e: Seq<(String, String)>) -> Seq<(Seq<char>, Seq<char>)> {
    e.map_values(|p: (String, String)| (p.0@, p.1@))
}

/// The map that a sequence of entries describes; a later entry for a name
/// replaces an earlier one.
pub open spec fn map_of(e: Seq<(Seq<char>, Seq<char>)>) -> Map<Seq<char>, Seq<char>>
    decreases e.len(),
{
    if e.len() == 0 {
        Map::empty()
    } else {
        map_of(e.drop_last()).insert(e.last().0, e.last().1)
    }
}

proof fn lemma_map_of_absent(e: Seq<(Seq<char>, Seq<char>)>, k: Seq<char>)
    requires
        forall|i: int| 0 <= i < e.len() ==> e[i].0 != k,
    ensures
        !map_of(e).dom().contains(k),
    decreases e.len(),
{
    if e.len() > 0 {
        lemma_map_of_absent(e.drop_last(), k);
    }
}

/// The text of a name is that of its last entry.
proof fn lemma_map_of_last(e: Seq<(Seq<char>, Seq<char>)>, i: int)
    requires
        0 <= i < e.len(),
        forall|j: int| i < j < e.len() ==> e[j].0 != e[i].0,
    ensures
        map_of(e).dom().contains(e[i].0),
        map_of(e)[e[i].0] == e[i].1,
    decreases e.len(),
{
    if i < e.len() - 1 {
        lemma_map_of_last(e.drop_last(), i);
    }
}

/// The names of the map are those of the entries.
proof fn lemma_map_of_dom(e: Seq<(Seq<char>, Seq<char>)>, k: Seq<char>)
    ensures
        map_of(e).dom().contains(k) <==> exists|i: int| 0 <= i < e.len() && e[i].0 == k,
    decreases e.len(),
{
    if e.len() > 0 {
        lemma_map_of_dom(e.drop_last(), k);
        if exists|i: int| 0 <= i < e.drop_last().len() && e.drop_last()[i].0 == k {
            let i = choose|i: int| 0 <= i < e.drop_last().len() && e.drop_last()[i].0 == k;
            assert(e[i].0 == k);
        }
        if exists|i: int| 0 <= i < e.len() && e[i].0 == k {
            let i = choose|i: int| 0 <= i < e.len() && e[i].0 == k;
            if i < e.len() - 1 {
                assert(e.drop_last()[i].0 == k);
            }
        }
    }
}

/// Replacing the text of a name's last entry replaces its text.
proof fn lemma_map_of_update(e: Seq<(Seq<char>, Seq<char>)>, i: int, v: Seq<char>)
    requires
        0 <= i < e.len(),
        forall|j: int| i < j < e.len() ==> e[j].0 != e[i].0,
    ensures
        map_of(e.update(i, (e[i].0, v))) == map_of(e).insert(e[i].0, v),
    decreases e.len(),
{
    let u = e.update(i, (e[i].0, v));
    if i == e.len() - 1 {
        assert(u.drop_last() =~= e.drop_last());
        assert(map_of(u) =~= map_of(e).insert(e[i].0, v));
    } else {
        lemma_map_of_update(e.drop_last(), i, v);
        assert(u.drop_last() =~= e.drop_last().update(i, (e[i].0, v)));
        assert(map_of(u) =~= map_of(e).insert(e[i].0, v));
    }
}

/// Names mapped to texts.
pub struct TextMap {
    entries: Vec<(String, String)>,
}

impl View for TextMap {
    type V = Map<Seq<char>, Seq<char>>;

    closed spec fn view(&self) -> Map<Seq<char>, Seq<char>> {
        map_of(entry_views(self.entries@))
    }
}

impl TextMap {
    /// An empty map.
    pub fn new() -> (r: Self)
        ensures
            r@ == Map::<Seq<char>, Seq<char>>::empty(),
    {
        let r = TextMap { entries: Vec::new() };
        assert(entry_views(r.entries@) =~= Seq::<(Seq<char>, Seq<char>)>::empty());
        r
    }

    /// The position of the last entry for `name`.
    fn index_of(&self, name: &str) -> (r: Option<usize>)
        ensures
            match r {
                Some(i) => i < self.entries@.len() && self.entries@[i as int].0@ == name@ && forall|j: int|
                    i < j < self.entries@.len() ==> self.entries@[j].0@ != name@,
                None => forall|j: int| 0 <= j < self.entries@.len() ==> self.entries@[j].0@ != name@,
            },
    {
        let mut i: usize = self.entries.len();
        while i > 0
            invariant
                i <= self.entries@.len(),
                forall|j: int| i <= j < self.entries@.len() ==> self.entries@[j].0@ != name@,
            decreases i,
        {
            if str_eq(self.entries[i - 1].0.as_str(), name) {
                return Some(i - 1);
            }
            i -= 1;
        }
        None
    }

    /// A copy of the text stored under `name`.
    pub fn get(&self, name: &str) -> (r: Option<String>)
        ensures
            match r {
                Some(t) => self@.dom().contains(name@) && self@[name@] == t@,
                None => !self@.dom().contains(name@),
            },
    {
        let ghost ev = entry_views(self.entries@);
        match self.index_of(name) {
            Some(i) => {
                proof {
                    assert forall|j: int| i < j < ev.len() implies ev[j].0 != ev[i as int].0 by {
                        assert(ev[j].0 == self.entries@[j].0@);
                    }
                    lemma_map_of_last(ev, i as int);
                }
                Some(copy_str(self.entries[i].1.as_str()))
            },
            None => {
                proof {
                    assert forall|j: int| 0 <= j < ev.len() implies ev[j].0 != name@ by {
                        assert(ev[j].0 == self.entries@[j].0@);
                    }
                    lemma_map_of_absent(ev, name@);
                }
                None
            },
        }
    }

    /// Whether a text is stored under `name`.
    pub fn contains(&self, name: &str) -> (r: bool)
        ensures
            r == self@.dom().contains(name@),
    {
        match self.get(name) {
            Some(_) => true,
            None => false,
        }
    }

    /// Stores `text` under `name`.
    pub fn set(&mut self, name: &str, text: String)
        ensures
            final(self)@ == old(self)@.insert(name@, text@),
    {
        let ghost ev = entry_views(self.entries@);
        match self.index_of(name) {
            Some(i) => {
                let key = copy_str(self.entries[i].0.as_str());
                self.entries.set(i, (key, text));
                proof {
                    assert forall|j: int| i < j < ev.len() implies ev[j].0 != ev[i as int].0 by {
                        assert(ev[j].0 == self.entries@[j].0@);
                    }
                    lemma_map_of_update(ev, i as int, text@);
                    assert(entry_views(self.entries@) =~= ev.update(i as int, (ev[i as int].0, text@)));
                }
            },
            None => {
                self.entries.push((copy_str(name), text));
                proof {
                    let nv = entry_views(self.entries@);
                    assert(nv =~= ev.push((name@, text@)));
                    assert(nv.drop_last() =~= ev);
                }
            },
        }
    }

    /// Stores every entry of `other`, replacing texts under the same names.
    pub fn set_all(&mut self, other: &TextMap)
        ensures
            final(self)@ == old(self)@.union_prefer_right(other@),
    {
        let ghost ov = entry_views(other.entries@);
        let mut i: usize = 0;
        assert(old(self)@.union_prefer_right(map_of(ov.take(0))) =~= old(self)@);
        while i < other.entries.len()
            invariant
                i <= other.entries@.len(),
                ov == entry_views(other.entries@),
                self@ == old(self)@.union_prefer_right(map_of(ov.take(i as int))),
            decreases other.entries.len() - i,
        {
            let t = copy_str(other.entries[i].1.as_str());
            self.set(other.entries[i].0.as_str(), t);
            assert(ov.take(i + 1).drop_last() =~= ov.take(i as int));
            assert(ov.take(i + 1).last() == ov[i as int]);
            assert(self@ =~= old(self)@.union_prefer_right(map_of(ov.take(i + 1))));
            i += 1;
        }
        assert(ov.take(other.entries.len() as int) =~= ov);
    }

    /// A copy of the map.
    pub fn copy(&self) -> (r: TextMap)
        ensures
            r@ == self@,
    {
        let mut r = TextMap::new();
        r.set_all(self);
        assert(Map::<Seq<char>, Seq<char>>::empty().union_prefer_right(self@) =~= self@);
        r
    }

    /// The names of the entries; every stored name occurs.
    pub fn names(&self) -> (r: Vec<String>)
        ensures
            forall|k: Seq<char>| self@.dom().contains(k) <==> exists|i: int| 0 <= i < r@.len() && r@[i]@ == k,
    {
        let ghost ev = entry_views(self.entries@);
        let mut r: Vec<String> = Vec::new();
        let mut i: usize = 0;
        while i < self.entries.len()
            invariant
                i <= self.entries@.len(),
                ev == entry_views(self.entries@),
                r@.len() == i,
                forall|j: int| 0 <= j < i ==> r@[j]@ == ev[j].0,
            decreases self.entries.len() - i,
        {
            r.push(copy_str(self.entries[i].0.as_str()));
            i += 1;
        }
        proof {
            assert forall|k: Seq<char>| self@.dom().contains(k) <==> exists|i: int| 0 <= i < r@.len() && r@[i]@ == k by {
                lemma_map_of_dom(ev, k);
                if exists|i: int| 0 <= i < r@.len() && r@[i]@ == k {
                    let i = choose|i: int| 0 <= i < r@.len() && r@[i]@ == k;
                    assert(ev[i].0 == k);
                }
                if exists|i: int| 0 <= i < ev.len() && ev[i].0 == k {
                    let i = choose|i: int| 0 <= i < ev.len() && ev[i].0 == k;
                    assert(r@[i]@ == k);
                }
            }
        }
        r
    }
}

} // verus!
