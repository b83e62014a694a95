use vstd::prelude::*;

verus! {

/// The display name that identifies a player for the whole game.
pub type Name = String;

/// The character sequences of a sequence of names.
pub open spec fn name_views(names: Seq<Name>) -> Seq<Seq<char>> {
    names.map_values(|n: Name| n@)
}

/// Walking a sequence without repeats one element at a time adds exactly that
/// element to the set of those seen so far, and it was not among them.
pub proof fn lemma_prefix_step(s: Seq<Seq<char>>, i: int, p: spec_fn(Seq<char>) -> bool)
    requires
        s.no_duplicates(),
        0 <= i < s.len(),
    ensures
        s.take(i).to_set().finite(),
        s.take(i).to_set().filter(p).finite(),
        !s.take(i).to_set().contains(s[i]),
        s.take(i + 1).to_set() == s.take(i).to_set().insert(s[i]),
        p(s[i]) ==> s.take(i + 1).to_set().filter(p) == s.take(i).to_set().filter(p).insert(
            s[i],
        ),
        !p(s[i]) ==> s.take(i + 1).to_set().filter(p) == s.take(i).to_set().filter(p),
{
    broadcast use vstd::seq_lib::seq_to_set_is_finite;

    let a = s.take(i);
    let b = s.take(i + 1);
    assert(b =~= a.push(s[i]));
    assert(b.to_set() =~= a.to_set().insert(s[i])) by {
        assert forall|x| b.to_set().contains(x) <==> a.to_set().insert(s[i]).contains(x) by {
            if b.to_set().contains(x) {
                let j = choose|j: int| 0 <= j < b.len() && b[j] == x;
                if j < i {
                    assert(a[j] == x);
                }
            }
            if a.to_set().contains(x) {
                let j = choose|j: int| 0 <= j < a.len() && a[j] == x;
                assert(b[j] == x);
            }
            if x == s[i] {
                assert(b[i] == x);
            }
        }
    }
    if a.to_set().contains(s[i]) {
        let j = choose|j: int| 0 <= j < a.len() && a[j] == s[i];
        assert(s[j] == s[i]);
    }
    assert(a.to_set().filter(p).subset_of(a.to_set()));
    vstd::set_lib::lemma_set_subset_finite(a.to_set(), a.to_set().filter(p));
    if p(s[i]) {
        assert(b.to_set().filter(p) =~= a.to_set().filter(p).insert(s[i]));
    } else {
        assert(b.to_set().filter(p) =~= a.to_set().filter(p));
    }
}

/// Nothing has been seen before the walk starts.
pub proof fn lemma_prefix_start(s: Seq<Seq<char>>, p: spec_fn(Seq<char>) -> bool)
    ensures
        s.take(0).to_set() == Set::<Seq<char>>::empty(),
        s.take(0).to_set().filter(p) == Set::<Seq<char>>::empty(),
        s.take(0).to_set().filter(p).len() == 0,
{
    assert(s.take(0).to_set() =~= Set::<Seq<char>>::empty());
    assert(s.take(0).to_set().filter(p) =~= Set::<Seq<char>>::empty());
}

/// At the end of the walk everything has been seen.
pub proof fn lemma_prefix_end(s: Seq<Seq<char>>)
    ensures
        s.take(s.len() as int) == s,
{
    assert(s.take(s.len() as int) =~= s);
}

/// A finite set of player names, held as a vector without repeats.
#[derive(Debug)]
pub struct NameSet {
    names: Vec<Name>,
}

impl View for NameSet {
    type V = Set<Seq<char>>;

    closed spec fn view(&self) -> Set<Seq<char>> {
        name_views(self.names@).to_set()
    }
}

impl NameSet {
    #[verifier::type_invariant]
    spec fn no_repeats(self) -> bool {
        name_views(self.names@).no_duplicates()
    }

    /// The members in the order in which they are held.
    pub closed spec fn order(&self) -> Seq<Seq<char>> {
        name_views(self.names@)
    }

    /// The empty set.
    pub fn new() -> (r: Self)
        ensures
            r@ == Set::<Seq<char>>::empty(),
    {
        let r = NameSet { names: Vec::new() };
        assert(r@ =~= Set::<Seq<char>>::empty());
        r
    }

    /// The number of members; also how the members are laid out, for callers
    /// that walk them with `get`.
    pub fn len(&self) -> (r: usize)
        ensures
            r == self@.len(),
            r == self.order().len(),
            self@.finite(),
            self.order().no_duplicates(),
            self.order().to_set() == self@,
    {
        proof {
            use_type_invariant(self);
            name_views(self.names@).unique_seq_to_set();
        }
        self.names.len()
    }

    /// Whether the set is empty.
    pub fn is_empty(&self) -> (r: bool)
        ensures
            r == (self@.len() == 0),
            self@.finite(),
    {
        self.len() == 0
    }

    /// The member at position `i` of `order`.
    pub fn get(&self, i: usize) -> (r: &Name)
        requires
            i < self.order().len(),
        ensures
            r@ == self.order()[i as int],
    {
        &self.names[i]
    }

    /// Moves the vector out, leaving the set empty.
    fn take_names(&mut self) -> (r: Vec<Name>)
        ensures
            r == old(self).names,
            final(self)@ == Set::<Seq<char>>::empty(),
    {
        let mut taken = NameSet::new();
        std::mem::swap(self, &mut taken);
        taken.names
    }

    fn position(&self, n: &Name) -> (r: Option<usize>)
        ensures
            match r {
                Some(i) => i < self.names.len() && self.names@[i as int]@ == n@,
                None => !self@.contains(n@),
            },
    {
        let mut i: usize = 0;
        while i < self.names.len()
            invariant
                i <= self.names.len(),
                forall|j: int| 0 <= j < i ==> self.names@[j]@ != n@,
            decreases self.names.len() - i,
        {
            if self.names[i] == *n {
                return Some(i);
            }
            i += 1;
        }
        None
    }

    /// Whether `n` is a member.
    pub fn contains(&self, n: &Name) -> (r: bool)
        ensures
            r == self@.contains(n@),
    {
        match self.position(n) {
            Some(i) => {
                assert(name_views(self.names@)[i as int] == n@);
                true
            },
            None => false,
        }
    }

    /// Adds `n`; nothing changes if it is already a member.
    pub fn insert(&mut self, n: Name)
        ensures
            final(self)@ == old(self)@.insert(n@),
    {
        proof {
            use_type_invariant(&*self);
        }
        match self.position(&n) {
            Some(i) => {
                assert(name_views(self.names@)[i as int] == n@);
                assert(self@.insert(n@) =~= self@);
            },
            None => {
                let ghost before = name_views(self.names@);
                let mut names = self.take_names();
                names.push(n);
                assert(name_views(names@) =~= before.push(n@));
                proof {
                    before.lemma_push_to_set_commute(n@);
                }
                *self = NameSet { names };
            },
        }
    }

    /// Removes `n`; nothing changes if it is not a member.
    pub fn remove(&mut self, n: &Name)
        ensures
            final(self)@ == old(self)@.remove(n@),
    {
        proof {
            use_type_invariant(&*self);
        }
        match self.position(n) {
            Some(i) => {
                let ghost before = name_views(self.names@);
                let mut names = self.take_names();
                names.remove(i);
                let ghost after = name_views(names@);
                assert(after =~= before.remove(i as int));
                assert(before[i as int] == n@);
                *self = NameSet { names };
                assert(self@ =~= old(self)@.remove(n@)) by {
                    assert forall|x| self@.contains(x) <==> old(self)@.remove(n@).contains(x) by {
                        if self@.contains(x) {
                            assert(after.contains(x));
                            let j = choose|j: int| 0 <= j < after.len() && after[j] == x;
                            if j < i {
                                assert(before[j] == x);
                            } else {
                                assert(before[j + 1] == x);
                            }
                            assert(x != n@);
                        }
                        if old(self)@.remove(n@).contains(x) {
                            let j = choose|j: int| 0 <= j < before.len() && before[j] == x;
                            if j < i {
                                assert(after[j] == x);
                            } else {
                                assert(j != i);
                                assert(after[j - 1] == x);
                            }
                        }
                    }
                }
            },
            None => {
                assert(self@.remove(n@) =~= self@);
            },
        }
    }

    /// A copy of the set.
    pub fn duplicate(&self) -> (r: Self)
        ensures
            r@ == self@,
    {
        proof {
            use_type_invariant(self);
        }
        let mut names: Vec<Name> = Vec::new();
        let mut i: usize = 0;
        while i < self.names.len()
            invariant
                i <= self.names.len(),
                name_views(names@) == name_views(self.names@).take(i as int),
            decreases self.names.len() - i,
        {
            let ghost prev = names@;
            let c = self.names[i].clone();
            names.push(c);
            assert(names@ == prev.push(c));
            assert(c@ == self.names@[i as int]@);
            assert(name_views(prev.push(c)) =~= name_views(prev).push(c@));
            assert(name_views(names@) =~= name_views(self.names@).take(i + 1));
            i += 1;
        }
        assert(name_views(self.names@).take(i as int) =~= name_views(self.names@));
        NameSet { names }
    }
}

/// A finite map from player names to values, held as two vectors of equal
/// length whose keys do not repeat.
#[derive(Debug)]
pub struct NameMap<V> {
    keys: Vec<Name>,
    values: Vec<V>,
}

impl<V> View for NameMap<V> {
    type V = Map<Seq<char>, V>;

    closed spec fn view(&self) -> Map<Seq<char>, V> {
        Map::new(
            |k: Seq<char>| name_views(self.keys@).contains(k),
            |k: Seq<char>| self.values@[name_views(self.keys@).index_of(k)],
        )
    }
}

impl<V> NameMap<V> {
    #[verifier::type_invariant]
    spec fn well_formed(self) -> bool {
        &&& self.keys.len() == self.values.len()
        &&& name_views(self.keys@).no_duplicates()
    }

    /// The keys in the order in which they are held.
    pub closed spec fn order(&self) -> Seq<Seq<char>> {
        name_views(self.keys@)
    }

    proof fn lemma_index(&self, i: int)
        requires
            self.well_formed(),
            0 <= i < self.keys.len(),
        ensures
            self@.contains_key(self.keys@[i]@),
            self@[self.keys@[i]@] == self.values@[i],
    {
        let ks = name_views(self.keys@);
        assert(ks[i] == self.keys@[i]@);
        let j = ks.index_of(ks[i]);
        assert(ks.contains(ks[i]));
        assert(0 <= j < ks.len() && ks[j] == ks[i]);
    }

    /// The empty map.
    pub fn new() -> (r: Self)
        ensures
            r@ == Map::<Seq<char>, V>::empty(),
    {
        let r = NameMap { keys: Vec::new(), values: Vec::new() };
        assert(r@ =~= Map::<Seq<char>, V>::empty());
        r
    }

    /// The number of entries; also how the keys are laid out, for callers
    /// that walk them with `key_at` and `value_at`.
    pub fn len(&self) -> (r: usize)
        ensures
            r == self@.len(),
            r == self.order().len(),
            self@.dom().finite(),
            self.order().no_duplicates(),
            self.order().to_set() == self@.dom(),
    {
        proof {
            use_type_invariant(self);
            name_views(self.keys@).unique_seq_to_set();
            assert(self.order().to_set() =~= self@.dom());
        }
        self.keys.len()
    }

    /// The key at position `i` of `order`.
    pub fn key_at(&self, i: usize) -> (r: &Name)
        requires
            i < self.order().len(),
        ensures
            r@ == self.order()[i as int],
    {
        &self.keys[i]
    }

    /// The value stored under the key at position `i` of `order`.
    pub fn value_at(&self, i: usize) -> (r: &V)
        requires
            i < self.order().len(),
        ensures
            *r == self@[self.order()[i as int]],
    {
        proof {
            use_type_invariant(self);
            self.lemma_index(i as int);
        }
        &self.values[i]
    }

    /// Moves both vectors out, leaving the map empty.
    fn take_parts(&mut self) -> (r: (Vec<Name>, Vec<V>))
        ensures
            r.0 == old(self).keys,
            r.1 == old(self).values,
            final(self)@ == Map::<Seq<char>, V>::empty(),
    {
        let mut taken = NameMap::new();
        std::mem::swap(self, &mut taken);
        (taken.keys, taken.values)
    }

    /// The keys in the order in which they are held.
    pub fn keys(&self) -> (r: Vec<Name>)
        ensures
            name_views(r@) == self.order(),
    {
        let mut r: Vec<Name> = Vec::new();
        let mut i: usize = 0;
        while i < self.keys.len()
            invariant
                i <= self.keys.len(),
                name_views(r@) == name_views(self.keys@).take(i as int),
            decreases self.keys.len() - i,
        {
            let ghost prev = r@;
            let c = self.keys[i].clone();
            r.push(c);
            assert(name_views(prev.push(c)) =~= name_views(prev).push(c@));
            assert(name_views(r@) =~= name_views(self.keys@).take(i + 1));
            i += 1;
        }
        assert(name_views(self.keys@).take(i as int) =~= name_views(self.keys@));
        r
    }

    fn position(&self, k: &Name) -> (r: Option<usize>)
        ensures
            match r {
                Some(i) => i < self.keys.len() && self.keys@[i as int]@ == k@,
                None => !self@.contains_key(k@),
            },
    {
        let mut i: usize = 0;
        while i < self.keys.len()
            invariant
                i <= self.keys.len(),
                forall|j: int| 0 <= j < i ==> self.keys@[j]@ != k@,
            decreases self.keys.len() - i,
        {
            if self.keys[i] == *k {
                return Some(i);
            }
            i += 1;
        }
        None
    }

    /// Whether `k` has an entry.
    pub fn contains_key(&self, k: &Name) -> (r: bool)
        ensures
            r == self@.contains_key(k@),
    {
        proof {
            use_type_invariant(self);
        }
        match self.position(k) {
            Some(i) => {
                proof {
                    self.lemma_index(i as int);
                }
                true
            },
            None => false,
        }
    }

    /// The value stored under `k`, if any.
    pub fn get(&self, k: &Name) -> (r: Option<&V>)
        ensures
            match r {
                Some(v) => self@.contains_key(k@) && *v == self@[k@],
                None => !self@.contains_key(k@),
            },
    {
        proof {
            use_type_invariant(self);
        }
        match self.position(k) {
            Some(i) => {
                proof {
                    self.lemma_index(i as int);
                }
                Some(&self.values[i])
            },
            None => None,
        }
    }

    /// Stores `v` under `k`, replacing what was there.
    pub fn insert(&mut self, k: Name, v: V)
        ensures
            final(self)@ == old(self)@.insert(k@, v),
    {
        proof {
            use_type_invariant(&*self);
        }
        match self.position(&k) {
            Some(i) => {
                let (keys, mut values) = self.take_parts();
                values.set(i, v);
                *self = NameMap { keys, values };
                proof {
                    assert(name_views(self.keys@) == name_views(old(self).keys@));
                    assert forall|x| #[trigger] self@.contains_key(x) implies self@[x] == old(
                        self,
                    )@.insert(k@, v)[x] by {
                        let ks = name_views(self.keys@);
                        let j = ks.index_of(x);
                        assert(0 <= j < ks.len() && ks[j] == x);
                        assert(ks[i as int] == k@);
                        if x == k@ {
                            assert(j == i);
                        } else {
                            assert(j != i);
                            assert(self.values@[j] == old(self).values@[j]);
                            old(self).lemma_index(j);
                            assert(old(self).keys@[j]@ == x);
                        }
                    }
                    assert(name_views(self.keys@)[i as int] == k@);
                    assert(self@.dom() =~= old(self)@.insert(k@, v).dom());
                    assert(self@ =~= old(self)@.insert(k@, v));
                }
            },
            None => {
                let ghost before = name_views(self.keys@);
                let (mut keys, mut values) = self.take_parts();
                keys.push(k);
                values.push(v);
                proof {
                    assert(name_views(keys@) =~= before.push(k@));
                }
                *self = NameMap { keys, values };
                proof {
                    let ks = name_views(self.keys@);
                    assert(ks =~= before.push(k@));
                    assert(self.well_formed());
                    assert forall|x| #[trigger] self@.contains_key(x) implies self@[x] == old(
                        self,
                    )@.insert(k@, v)[x] by {
                        let j = ks.index_of(x);
                        assert(0 <= j < ks.len() && ks[j] == x);
                        if x == k@ {
                            self.lemma_index(ks.len() - 1);
                        } else {
                            assert(ks[ks.len() - 1] == k@);
                            assert(j < before.len());
                            assert(self.keys@[j] == old(self).keys@[j]);
                            assert(self.values@[j] == old(self).values@[j]);
                            assert(before[j] == x);
                            old(self).lemma_index(j);
                            self.lemma_index(j);
                        }
                    }
                    assert forall|x| #[trigger] self@.contains_key(x) implies old(self)@.insert(
                        k@,
                        v,
                    ).contains_key(x) by {
                        let j = ks.index_of(x);
                        assert(0 <= j < ks.len() && ks[j] == x);
                        if j < before.len() {
                            assert(before[j] == x);
                        }
                    }
                    assert forall|x| old(self)@.insert(k@, v).contains_key(x) implies #[trigger] self@.contains_key(
                        x,
                    ) by {
                        if x == k@ {
                            assert(ks[ks.len() - 1] == x);
                        } else {
                            let j = before.index_of(x);
                            assert(ks[j] == x);
                        }
                    }
                    assert(self@ =~= old(self)@.insert(k@, v));
                }
            },
        }
    }

    /// Takes out the entry of `k`, if any, and returns its value.
    pub fn remove(&mut self, k: &Name) -> (r: Option<V>)
        ensures
            final(self)@ == old(self)@.remove(k@),
            match r {
                Some(v) => old(self)@.contains_key(k@) && v == old(self)@[k@],
                None => !old(self)@.contains_key(k@),
            },
    {
        proof {
            use_type_invariant(&*self);
        }
        match self.position(k) {
            Some(i) => {
                proof {
                    self.lemma_index(i as int);
                }
                let ghost before = name_views(self.keys@);
                let (mut keys, mut values) = self.take_parts();
                keys.remove(i);
                let v = values.remove(i);
                proof {
                    assert(name_views(keys@) =~= before.remove(i as int));
                }
                *self = NameMap { keys, values };
                proof {
                    let ks = name_views(self.keys@);
                    assert(ks =~= before.remove(i as int));
                    assert(self.well_formed());
                    assert forall|x| #[trigger] self@.contains_key(x) implies self@[x] == old(
                        self,
                    )@[x] && x != k@ by {
                        let j = ks.index_of(x);
                        assert(0 <= j < ks.len() && ks[j] == x);
                        self.lemma_index(j);
                        assert(before[i as int] == k@);
                        if j < i {
                            assert(self.keys@[j] == old(self).keys@[j]);
                            assert(self.values@[j] == old(self).values@[j]);
                            assert(before[j] == x);
                            old(self).lemma_index(j);
                        } else {
                            assert(self.keys@[j] == old(self).keys@[j + 1]);
                            assert(self.values@[j] == old(self).values@[j + 1]);
                            assert(before[j + 1] == x);
                            old(self).lemma_index(j + 1);
                        }
                    }
                    assert forall|x| old(self)@.remove(k@).contains_key(x) implies #[trigger] self@.contains_key(
                        x,
                    ) by {
                        let j = before.index_of(x);
                        assert(0 <= j < before.len() && before[j] == x);
                        if j < i {
                            assert(ks[j] == x);
                        } else {
                            assert(j != i);
                            assert(ks[j - 1] == x);
                        }
                    }
                    assert(self@ =~= old(self)@.remove(k@));
                }
                Some(v)
            },
            None => {
                assert(self@.remove(k@) =~= self@);
                None
            },
        }
    }
}

impl<V: Copy> NameMap<V> {
    /// A copy of the map.
    pub fn duplicate(&self) -> (r: Self)
        ensures
            r@ == self@,
    {
        let n = self.len();
        let mut r: NameMap<V> = NameMap::new();
        let mut i: usize = 0;
        while i < n
            invariant
                n == self.order().len(),
                i <= n,
                self.order().no_duplicates(),
                self.order().to_set() == self@.dom(),
                r@ == self@.restrict(self.order().take(i as int).to_set()),
            decreases n - i,
        {
            let k = self.key_at(i).clone();
            let v = *self.value_at(i);
            r.insert(k, v);
            proof {
                lemma_prefix_step(self.order(), i as int, |x: Seq<char>| true);
                assert(r@ =~= self@.restrict(self.order().take(i + 1).to_set()));
            }
            i += 1;
        }
        proof {
            assert(self.order().take(n as int) =~= self.order());
            assert(r@ =~= self@);
        }
        r
    }
}

impl NameMap<Name> {
    /// A copy of the map.
    pub fn duplicate_names(&self) -> (r: Self)
        ensures
            r@.dom() == self@.dom(),
            forall|k| #[trigger] r@.contains_key(k) ==> r@[k]@ == self@[k]@,
    {
        let n = self.len();
        let mut r: NameMap<Name> = NameMap::new();
        let mut i: usize = 0;
        while i < n
            invariant
                n == self.order().len(),
                i <= n,
                self.order().no_duplicates(),
                self.order().to_set() == self@.dom(),
                r@.dom() == self.order().take(i as int).to_set(),
                forall|k| #[trigger] r@.contains_key(k) ==> r@[k]@ == self@[k]@,
            decreases n - i,
        {
            let k = self.key_at(i).clone();
            let v = self.value_at(i).clone();
            r.insert(k, v);
            proof {
                lemma_prefix_step(self.order(), i as int, |x: Seq<char>| true);
            }
            i += 1;
        }
        proof {
            assert(self.order().take(n as int) =~= self.order());
        }
        r
    }
}

} // verus!
