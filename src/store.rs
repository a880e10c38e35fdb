use vstd::prelude::*;

verus! {

/// A key/value table keyed by strings, as used for the persistent records
/// of the ledger. Keys are unique; a lookup finds the value last written
/// under its key.
pub struct Table<V> {
    keys: Vec<String>,
    vals: Vec<V>,
    contents: Ghost<Map<Seq<char>, V>>,
}

impl<V> Table<V> {
    /// The table as a map from the key's characters to the stored value.
    pub closed spec fn view(&self) -> Map<Seq<char>, V> {
        self.contents@
    }

    pub closed spec fn wf(&self) -> bool {
        &&& self.keys@.len() == self.vals@.len()
        &&& forall|i: int, j: int|
            0 <= i < self.keys@.len() && 0 <= j < self.keys@.len() && i != j
                ==> #[trigger] self.keys@[i]@ != #[trigger] self.keys@[j]@
        &&& forall|i: int|
            0 <= i < self.keys@.len() ==> {
                &&& self.contents@.contains_key(#[trigger] self.keys@[i]@)
                &&& self.contents@[self.keys@[i]@] == self.vals@[i]
            }
        &&& forall|k: Seq<char>|
            #[trigger] self.contents@.contains_key(k) ==> exists|i: int|
                0 <= i < self.keys@.len() && #[trigger] self.keys@[i]@ == k
    }

    pub fn new() -> (r: Self)
        ensures
            r.wf(),
            r@ == Map::<Seq<char>, V>::empty(),
    {
        Table { keys: Vec::new(), vals: Vec::new(), contents: Ghost(Map::empty()) }
    }

    /// The position of `key`, if it is stored.
    fn position(&self, key: &String) -> (r: Option<usize>)
        requires
            self.wf(),
        ensures
            match r {
                Some(i) => i < self.keys@.len() && self.keys@[i as int]@ == key@,
                None => !self@.contains_key(key@),
            },
    {
        let mut i: usize = 0;
        while i < self.keys.len()
            invariant
                self.wf(),
                i <= self.keys@.len(),
                forall|j: int| 0 <= j < i ==> self.keys@[j]@ != key@,
            decreases self.keys@.len() - i,
        {
            if self.keys[i] == *key {
                return Some(i);
            }
            i = i + 1;
        }
        None
    }

    /// Membership check for `key`.
    pub fn has(&self, key: &String) -> (r: bool)
        requires
            self.wf(),
        ensures
            r == self@.contains_key(key@),
    {
        match self.position(key) {
            Some(_) => true,
            None => false,
        }
    }

    /// The value stored under `key`, if any.
    pub fn get(&self, key: &String) -> (r: Option<&V>)
        requires
            self.wf(),
        ensures
            match r {
                Some(v) => self@.contains_key(key@) && *v == self@[key@],
                None => !self@.contains_key(key@),
            },
    {
        match self.position(key) {
            Some(i) => Some(&self.vals[i]),
            None => None,
        }
    }

    /// Stores `val` under `key`, replacing what was there.
    pub fn set(&mut self, key: String, val: V)
        requires
            old(self).wf(),
        ensures
            final(self).wf(),
            final(self)@ == old(self)@.insert(key@, val),
    {
        let ghost k = key@;
        match self.position(&key) {
            Some(i) => {
                self.vals.set(i, val);
                self.contents = Ghost(self.contents@.insert(k, self.vals@[i as int]));
                assert forall|k2: Seq<char>| #[trigger] self.contents@.contains_key(k2) implies exists|j: int|
                    0 <= j < self.keys@.len() && #[trigger] self.keys@[j]@ == k2 by {
                    if k2 != k {
                        assert(old(self).contents@.contains_key(k2));
                        let j = choose|j: int| 0 <= j < old(self).keys@.len() && #[trigger] old(self).keys@[j]@ == k2;
                        assert(self.keys@[j]@ == k2);
                    } else {
                        assert(self.keys@[i as int]@ == k2);
                    }
                }
            },
            None => {
                let ghost n = self.keys@.len();
                self.keys.push(key);
                self.vals.push(val);
                self.contents = Ghost(self.contents@.insert(k, self.vals@[n as int]));
                assert(self.keys@[n as int]@ == k);
                assert forall|k2: Seq<char>| #[trigger] self.contents@.contains_key(k2) implies exists|j: int|
                    0 <= j < self.keys@.len() && #[trigger] self.keys@[j]@ == k2 by {
                    if k2 != k {
                        assert(old(self).contents@.contains_key(k2));
                        let j = choose|j: int| 0 <= j < old(self).keys@.len() && #[trigger] old(self).keys@[j]@ == k2;
                        assert(self.keys@[j]@ == k2);
                    }
                }
            },
        }
    }
}

} // verus!
