//! A registry of entries keyed by string id, where inserting an id that is
//! already present replaces the earlier entry and hands it back.
use vstd::prelude::*;

verus! {

pub struct Registry<T> {
    entries: Vec<(String, T)>,
}

impl<T> Registry<T> {
    /// The ids, in order of first insertion.
    pub closed spec fn ids(&self) -> Seq<Seq<char>> {
        self.entries@.map_values(|p: (String, T)| p.0@)
    }

    pub closed spec fn values(&self) -> Seq<T> {
        self.entries@.map_values(|p: (String, T)| p.1)
    }

    pub open spec fn wf(&self) -> bool {
        &&& self.ids().len() == self.values().len()
        &&& forall|i: int, j: int| 0 <= i < self.ids().len() && 0 <= j < self.ids().len() && i != j
            ==> self.ids()[i] != self.ids()[j]
    }

    pub open spec fn len_spec(&self) -> nat {
        self.ids().len()
    }

    pub open spec fn has(&self, id: Seq<char>) -> bool {
        self.ids().contains(id)
    }

    pub open spec fn index_of(&self, id: Seq<char>) -> int {
        choose|i: int| 0 <= i < self.ids().len() && self.ids()[i] == id
    }

    /// The entry under `id`, if any.
    pub open spec fn get(&self, id: Seq<char>) -> Option<T> {
        if self.has(id) {
            Some(self.values()[self.index_of(id)])
        } else {
            None
        }
    }

    /// `after` is `before` with `value` put under `id`, and `prev` what was
    /// under `id` before.
    pub open spec fn inserted(before: Self, after: Self, id: Seq<char>, value: T, prev: Option<T>) -> bool {
        &&& prev == before.get(id)
        &&& after.get(id) == Some(value)
        &&& forall|k: Seq<char>| k != id ==> after.get(k) == before.get(k)
        &&& after.len_spec() == before.len_spec() + if before.has(id) { 0nat } else { 1nat }
    }

    pub fn new() -> (r: Self)
        ensures
            r.wf(),
            r.len_spec() == 0,
            forall|id: Seq<char>| r.get(id).is_none(),
    {
        let r = Registry { entries: Vec::new() };
        assert(r.ids() =~= Seq::<Seq<char>>::empty());
        assert(r.values() =~= Seq::<T>::empty());
        r
    }

    pub fn len(&self) -> (r: usize)
        ensures
            r == self.len_spec(),
    {
        self.entries.len()
    }

    fn find(&self, id: &str) -> (r: Option<usize>)
        requires
            self.wf(),
        ensures
            match r {
                Some(i) => self.has(id@) && i == self.index_of(id@) && i < self.ids().len(),
                None => !self.has(id@),
            },
    {
        let key = String::from_str(id);
        let mut i: usize = 0;
        while i < self.entries.len()
            invariant
                self.wf(),
                i <= self.ids().len(),
                self.entries@.len() == self.ids().len(),
                key@ == id@,
                forall|j: int| 0 <= j < i ==> self.ids()[j] != id@,
            decreases self.ids().len() - i,
        {
            if self.entries[i].0 == key {
                assert(self.ids()[i as int] == id@);
                let ghost c = self.index_of(id@);
                assert(self.ids()[c] == id@);
                return Some(i);
            }
            i = i + 1;
        }
        None
    }

    pub fn contains(&self, id: &str) -> (r: bool)
        requires
            self.wf(),
        ensures
            r == self.has(id@),
    {
        self.find(id).is_some()
    }

    /// Puts `value` under `id`. An entry already under `id` is replaced and
    /// returned as it is: nothing is done to it.
    pub fn insert(&mut self, id: String, value: T) -> (r: Option<T>)
        requires
            old(self).wf(),
        ensures
            final(self).wf(),
            Self::inserted(*old(self), *final(self), id@, value, r),
    {
        let ghost ids0 = self.ids();
        let ghost vals0 = self.values();
        match self.find(id.as_str()) {
            Some(i) => {
                let ghost key = id@;
                let (_, prev) = self.entries.remove(i);
                self.entries.insert(i, (id, value));
                proof {
                    assert(self.ids() =~= ids0);
                    assert(self.values() =~= vals0.update(i as int, value));
                    assert(self.has(key));
                    let c = self.index_of(key);
                    assert(c == i);
                    assert forall|k: Seq<char>| k != key implies self.get(k) == old(self).get(k) by {
                        if self.has(k) {
                            let d = self.index_of(k);
                            assert(ids0[d] == k);
                            assert(old(self).index_of(k) == d);
                        }
                    }
                }
                Some(prev)
            },
            None => {
                let ghost key = id@;
                self.entries.push((id, value));
                proof {
                    assert(self.ids() =~= ids0.push(key));
                    assert(self.values() =~= vals0.push(value));
                    let n = ids0.len() as int;
                    assert(self.ids()[n] == key);
                    assert(self.has(key));
                    assert forall|a: int, b: int| 0 <= a < self.ids().len() && 0 <= b < self.ids().len() && a != b
                        implies self.ids()[a] != self.ids()[b] by {
                        if a < n && b < n {
                            assert(self.ids()[a] == ids0[a]);
                            assert(self.ids()[b] == ids0[b]);
                        } else if a < n {
                            assert(self.ids()[a] == ids0[a]);
                            assert(!ids0.contains(key));
                        } else {
                            assert(self.ids()[b] == ids0[b]);
                            assert(!ids0.contains(key));
                        }
                    }
                    assert(self.index_of(key) == n);
                    assert forall|k: Seq<char>| k != key implies self.get(k) == old(self).get(k) by {
                        if old(self).has(k) {
                            let d = old(self).index_of(k);
                            assert(self.ids()[d] == k);
                            assert(self.has(k));
                            assert(self.index_of(k) == d);
                        }
                        if self.has(k) {
                            let d = self.index_of(k);
                            assert(d < n);
                            assert(ids0[d] == k);
                        }
                    }
                }
                None
            },
        }
    }

    /// Takes the entry under `id` out, if there is one.
    pub fn remove(&mut self, id: &str) -> (r: Option<T>)
        requires
            old(self).wf(),
        ensures
            final(self).wf(),
            r == old(self).get(id@),
            !final(self).has(id@),
            forall|k: Seq<char>| k != id@ ==> final(self).get(k) == old(self).get(k),
            final(self).len_spec() == old(self).len_spec() - if old(self).has(id@) { 1int } else { 0int },
    {
        let ghost ids0 = self.ids();
        let ghost vals0 = self.values();
        match self.find(id) {
            Some(i) => {
                let (_, v) = self.entries.remove(i);
                proof {
                    assert(self.ids() =~= ids0.remove(i as int));
                    assert(self.values() =~= vals0.remove(i as int));
                    let n = self.ids().len() as int;
                    assert forall|a: int| 0 <= a < n implies self.ids()[a] == ids0[if a < i { a } else { a + 1 }] by {}
                    assert forall|a: int, b: int| 0 <= a < n && 0 <= b < n && a != b
                        implies self.ids()[a] != self.ids()[b] by {
                        assert(self.ids()[a] == ids0[if a < i { a } else { a + 1 }]);
                        assert(self.ids()[b] == ids0[if b < i { b } else { b + 1 }]);
                    }
                    if self.has(id@) {
                        let c = self.index_of(id@);
                        assert(self.ids()[c] == ids0[if c < i { c } else { c + 1 }]);
                    }
                    assert forall|k: Seq<char>| k != id@ implies self.get(k) == old(self).get(k) by {
                        if self.has(k) {
                            let d = self.index_of(k);
                            let d0 = if d < i { d } else { d + 1 };
                            assert(ids0[d0] == k);
                            assert(old(self).has(k));
                            assert(old(self).index_of(k) == d0);
                        }
                        if old(self).has(k) {
                            let d0 = old(self).index_of(k);
                            assert(d0 != i);
                            let d = if d0 < i { d0 } else { d0 - 1 };
                            assert(self.ids()[d] == k);
                            assert(self.has(k));
                        }
                    }
                }
                Some(v)
            },
            None => None,
        }
    }

    /// Takes every entry out, in order of insertion, leaving the registry empty.
    pub fn drain(&mut self) -> (r: Vec<(String, T)>)
        requires
            old(self).wf(),
        ensures
            final(self).wf(),
            final(self).len_spec() == 0,
            r@.map_values(|p: (String, T)| p.0@) == old(self).ids(),
            r@.map_values(|p: (String, T)| p.1) == old(self).values(),
    {
        let mut r: Vec<(String, T)> = Vec::new();
        std::mem::swap(&mut self.entries, &mut r);
        assert(self.ids() =~= Seq::<Seq<char>>::empty());
        assert(self.values() =~= Seq::<T>::empty());
        r
    }
}

/// Inserting two entries under one id into an empty registry leaves one
/// entry, the second; the first is handed back by the second insertion as it
/// was, and nothing else is done to it.
pub proof fn lemma_duplicate_id_overwrites<T>(
    r0: Registry<T>,
    r1: Registry<T>,
    r2: Registry<T>,
    id: Seq<char>,
    a: T,
    b: T,
    first_prev: Option<T>,
    second_prev: Option<T>,
)
    requires
        r0.wf(),
        r0.len_spec() == 0,
        Registry::inserted(r0, r1, id, a, first_prev),
        Registry::inserted(r1, r2, id, b, second_prev),
    ensures
        r2.len_spec() == 1,
        r2.get(id) == Some(b),
        first_prev.is_none(),
        second_prev == Some(a),
{
    assert(!r0.has(id));
    assert(r1.has(id));
}

} // verus!
