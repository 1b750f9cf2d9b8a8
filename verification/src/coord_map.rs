use vstd::prelude::*;

verus! {

/// A map keyed by a coordinate pair `(x, y)`, kept in the order in which the
/// keys first came in. No key is held twice.
#[derive(Clone, Debug)]
pub struct CoordMap<V> {
    pub keys: Vec<(u8, u8)>,
    pub values: Vec<V>,
}

impl<V> CoordMap<V> {
    /// Each key has its value, and no key occurs twice.
    pub open spec fn wf(&self) -> bool {
        &&& self.keys@.len() == self.values@.len()
        &&& self.keys@.no_duplicates()
    }

    /// The map that the entries stand for.
    pub open spec fn view(&self) -> Map<(u8, u8), V> {
        Map::new(
            |k: (u8, u8)| self.keys@.contains(k),
            |k: (u8, u8)| self.values@[self.keys@.index_of(k)],
        )
    }

    pub fn new() -> (m: Self)
        ensures
            m.wf(),
            m@ == Map::<(u8, u8), V>::empty(),
            m.keys@.len() == 0,
    {
        let m = CoordMap { keys: Vec::new(), values: Vec::new() };
        assert(m@ =~= Map::<(u8, u8), V>::empty());
        m
    }

    pub fn len(&self) -> (n: usize)
        ensures
            n == self.keys@.len(),
    {
        self.keys.len()
    }

    /// Index of the first entry with this key.
    pub fn position(&self, x: u8, y: u8) -> (r: Option<usize>)
        ensures
            match r {
                Some(i) => i < self.keys@.len() && self.keys@[i as int] == (x, y) && forall|j: int|
                    0 <= j < i ==> self.keys@[j] != (x, y),
                None => !self.keys@.contains((x, y)),
            },
    {
        let mut i: usize = 0;
        while i < self.keys.len()
            invariant
                i <= self.keys@.len(),
                forall|j: int| 0 <= j < i ==> self.keys@[j] != (x, y),
            decreases self.keys@.len() - i,
        {
            let k = self.keys[i];
            if k.0 == x && k.1 == y {
                return Some(i);
            }
            i += 1;
        }
        None
    }

    pub fn contains_key(&self, x: u8, y: u8) -> (b: bool)
        ensures
            b == self@.contains_key((x, y)),
    {
        self.position(x, y).is_some()
    }

    pub fn get(&self, x: u8, y: u8) -> (r: Option<&V>)
        requires
            self.wf(),
        ensures
            match r {
                Some(v) => self@.contains_key((x, y)) && *v == self@[(x, y)],
                None => !self@.contains_key((x, y)),
            },
    {
        match self.position(x, y) {
            Some(i) => {
                assert(self.keys@.index_of((x, y)) == i);
                Some(&self.values[i])
            },
            None => None,
        }
    }

    /// Sets the value of a key. A key that is new goes to the end; one that
    /// is there keeps its place and has its value replaced.
    pub fn insert(&mut self, x: u8, y: u8, value: V)
        requires
            old(self).wf(),
        ensures
            final(self).wf(),
            final(self)@ == old(self)@.insert((x, y), value),
            old(self)@.contains_key((x, y)) ==> final(self).keys@ == old(self).keys@,
            !old(self)@.contains_key((x, y)) ==> final(self).keys@ == old(self).keys@.push((x, y)),
            forall|j: int|
                0 <= j < final(self).values@.len() ==> #[trigger] final(self).values@[j] == value
                    || (j < old(self).values@.len() && final(self).values@[j] == old(
                    self,
                ).values@[j]),
    {
        let ghost before = *self;
        match self.position(x, y) {
            Some(i) => {
                self.values.set(i, value);
                assert(self@ =~= before@.insert((x, y), value)) by {
                    assert forall|k: (u8, u8)| self@.contains_key(k) implies #[trigger] self@[k]
                        == before@.insert((x, y), value)[k] by {
                        let j = self.keys@.index_of(k);
                        assert(self.keys@[j] == k);
                    }
                }
            },
            None => {
                self.keys.push((x, y));
                self.values.push(value);
                let ghost n = before.keys@.len() as int;
                assert(self.keys@[n] == (x, y));
                assert(self@ =~= before@.insert((x, y), value)) by {
                    assert forall|k: (u8, u8)| #[trigger]
                        self@.contains_key(k) == before@.insert((x, y), value).contains_key(
                            k,
                        ) by {
                        if before.keys@.contains(k) {
                            let j = before.keys@.index_of(k);
                            assert(self.keys@[j] == k);
                        }
                        if self.keys@.contains(k) && k != (x, y) {
                            let j = self.keys@.index_of(k);
                            assert(before.keys@[j] == k);
                        }
                    }
                    assert forall|k: (u8, u8)| self@.contains_key(k) implies #[trigger] self@[k]
                        == before@.insert((x, y), value)[k] by {
                        let j = self.keys@.index_of(k);
                        assert(self.keys@[j] == k);
                        if k != (x, y) {
                            assert(before.keys@[j] == k);
                            assert(before.keys@.index_of(k) == j);
                        }
                    }
                }
            },
        }
    }
}

/// A well-formed map holds as many keys as its view has.
pub proof fn lemma_len_is_domain_len<V>(m: CoordMap<V>)
    requires
        m.wf(),
    ensures
        m@.dom().finite(),
        m@.dom().len() == m.keys@.len(),
{
    vstd::seq_lib::seq_to_set_is_finite(m.keys@);
    m.keys@.unique_seq_to_set();
    assert(m@.dom() =~= m.keys@.to_set());
}

impl<V> Default for CoordMap<V> {
    fn default() -> (m: Self)
        ensures
            m.wf(),
            m@ == Map::<(u8, u8), V>::empty(),
    {
        CoordMap::new()
    }
}

} // verus!
