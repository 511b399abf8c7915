//! A map keyed by text.
use crate::text::views;
use vstd::hash_map::StringHashMap;
use vstd::prelude::*;

verus! {

/// The key of every entry, in order.
pub open spec fn keys_of<V>(entries: Seq<(String, V)>) -> Seq<Seq<char>> {
    entries.map_values(|e: (String, V)| e.0@)
}

/// The map that a list of entries with distinct keys stands for.
pub open spec fn map_of<V>(entries: Seq<(String, V)>) -> Map<Seq<char>, V> {
    Map::new(
        |k: Seq<char>| keys_of(entries).contains(k),
        |k: Seq<char>| entries[keys_of(entries).index_of(k)].1,
    )
}

/// Entries in the order in which their keys came, and the place of each key.
struct Table<V> {
    entries: Vec<(String, V)>,
    places: StringHashMap<usize>,
}

/// Whether the places are those of the keys.
spec fn places_fit<V>(entries: Seq<(String, V)>, places: Map<Seq<char>, usize>) -> bool {
    &&& forall|k: Seq<char>| #[trigger] places.contains_key(k) <==> keys_of(entries).contains(k)
    &&& forall|i: int|
        0 <= i < entries.len() ==> #[trigger] places[keys_of(entries)[i]] == i
}

impl<V> Table<V> {
    /// The keys are distinct, and each is found at its place.
    spec fn wf(self) -> bool {
        keys_of(self.entries@).no_duplicates() && places_fit(self.entries@, self.places@)
    }

    fn new() -> (r: Table<V>)
        ensures
            r.wf(),
            r.entries@.len() == 0,
    {
        let entries: Vec<(String, V)> = Vec::new();
        assert(keys_of(entries@) =~= Seq::<Seq<char>>::empty());
        Table { entries, places: StringHashMap::new() }
    }
}

/// A map from text to `V`. Its entries keep the order in which their keys came.
pub struct KeyMap<V> {
    table: Table<V>,
}

impl<V> View for KeyMap<V> {
    type V = Map<Seq<char>, V>;

    closed spec fn view(&self) -> Map<Seq<char>, V> {
        map_of(self.table.entries@)
    }
}

proof fn lemma_entry<V>(entries: Seq<(String, V)>, i: int)
    requires
        keys_of(entries).no_duplicates(),
        0 <= i < entries.len(),
    ensures
        map_of(entries).contains_key(entries[i].0@),
        map_of(entries)[entries[i].0@] == entries[i].1,
        keys_of(entries).index_of(entries[i].0@) == i,
{
    let keys = keys_of(entries);
    assert(keys[i] == entries[i].0@);
    assert(keys.contains(keys[i]));
    let j = keys.index_of(keys[i]);
    assert(keys[j] == keys[i]);
}

proof fn lemma_push<V>(entries: Seq<(String, V)>, key: String, value: V)
    requires
        keys_of(entries).no_duplicates(),
        !keys_of(entries).contains(key@),
    ensures
        keys_of(entries.push((key, value))).no_duplicates(),
        keys_of(entries.push((key, value))) == keys_of(entries).push(key@),
        map_of(entries.push((key, value))) == map_of(entries).insert(key@, value),
{
    let more = entries.push((key, value));
    let keys = keys_of(entries);
    assert(keys_of(more) =~= keys.push(key@));
    assert forall|i: int, j: int| 0 <= i < more.len() && 0 <= j < more.len() && i != j implies
        keys_of(more)[i] != keys_of(more)[j] by {
        if i == entries.len() {
            assert(keys.contains(keys[j]));
        } else if j == entries.len() {
            assert(keys.contains(keys[i]));
        }
    }
    assert(keys_of(more).no_duplicates());
    assert forall|k: Seq<char>| #[trigger]
        map_of(more).contains_key(k) == map_of(entries).insert(key@, value).contains_key(k) by {
        if keys_of(more).contains(k) {
            let i = keys_of(more).index_of(k);
            if i < entries.len() {
                assert(keys[i] == k);
            }
        }
        if keys.contains(k) {
            assert(keys_of(more)[keys.index_of(k)] == k);
        }
        if k == key@ {
            assert(keys_of(more)[entries.len() as int] == k);
        }
    }
    assert forall|k: Seq<char>| #[trigger] map_of(more).contains_key(k) implies map_of(more)[k]
        == map_of(entries).insert(key@, value)[k] by {
        let i = keys_of(more).index_of(k);
        lemma_entry(more, i);
        if i < entries.len() {
            lemma_entry(entries, i);
        }
    }
    assert(map_of(more) =~= map_of(entries).insert(key@, value));
}

proof fn lemma_update<V>(entries: Seq<(String, V)>, i: int, value: V)
    requires
        keys_of(entries).no_duplicates(),
        0 <= i < entries.len(),
    ensures
        keys_of(entries.update(i, (entries[i].0, value))) == keys_of(entries),
        map_of(entries.update(i, (entries[i].0, value))) == map_of(entries).insert(
            entries[i].0@,
            value,
        ),
{
    let more = entries.update(i, (entries[i].0, value));
    assert(keys_of(more) =~= keys_of(entries));
    assert forall|k: Seq<char>| #[trigger] map_of(more).contains_key(k) implies map_of(more)[k]
        == map_of(entries).insert(entries[i].0@, value)[k] by {
        let j = keys_of(more).index_of(k);
        lemma_entry(more, j);
        lemma_entry(entries, j);
        assert(keys_of(entries)[j] == entries[j].0@ && keys_of(entries)[i] == entries[i].0@);
    }
    lemma_entry(entries, i);
    assert(map_of(more) =~= map_of(entries).insert(entries[i].0@, value));
}

proof fn lemma_remove<V>(entries: Seq<(String, V)>, i: int)
    requires
        keys_of(entries).no_duplicates(),
        0 <= i < entries.len(),
    ensures
        keys_of(entries.remove(i)).no_duplicates(),
        keys_of(entries.remove(i)) == keys_of(entries).remove(i),
        map_of(entries.remove(i)) == map_of(entries).remove(entries[i].0@),
{
    let less = entries.remove(i);
    let keys = keys_of(entries);
    assert(keys_of(less) =~= keys.remove(i));
    assert forall|a: int, b: int| 0 <= a < less.len() && 0 <= b < less.len() && a != b implies
        keys_of(less)[a] != keys_of(less)[b] by {
        let x = if a < i { a } else { a + 1 };
        let y = if b < i { b } else { b + 1 };
        assert(keys_of(less)[a] == keys[x]);
        assert(keys_of(less)[b] == keys[y]);
    }
    assert(keys_of(less).no_duplicates());
    lemma_entry(entries, i);
    assert forall|k: Seq<char>| #[trigger]
        map_of(less).contains_key(k) == map_of(entries).remove(entries[i].0@).contains_key(k) by {
        if keys_of(less).contains(k) {
            let a = keys_of(less).index_of(k);
            let x = if a < i { a } else { a + 1 };
            assert(keys[x] == k);
        }
        if keys.contains(k) && k != entries[i].0@ {
            let x = keys.index_of(k);
            let a = if x < i { x } else { x - 1 };
            assert(keys_of(less)[a] == k);
        }
    }
    assert forall|k: Seq<char>| #[trigger] map_of(less).contains_key(k) implies map_of(less)[k]
        == map_of(entries).remove(entries[i].0@)[k] by {
        let a = keys_of(less).index_of(k);
        let x = if a < i { a } else { a + 1 };
        assert(less[a] == entries[x]);
        lemma_entry(less, a);
        lemma_entry(entries, x);
    }
    assert(map_of(less) =~= map_of(entries).remove(entries[i].0@));
}

/// The keys that stay, in their order.
pub open spec fn kept(keys: Seq<Seq<char>>, stay: Set<Seq<char>>) -> Seq<Seq<char>>
    decreases keys.len(),
{
    if keys.len() == 0 {
        Seq::empty()
    } else {
        let before = kept(keys.drop_last(), stay);
        if stay.contains(keys.last()) {
            before.push(keys.last())
        } else {
            before
        }
    }
}

proof fn lemma_all_kept(keys: Seq<Seq<char>>, stay: Set<Seq<char>>)
    requires
        forall|i: int| 0 <= i < keys.len() ==> stay.contains(#[trigger] keys[i]),
    ensures
        kept(keys, stay) == keys,
    decreases keys.len(),
{
    if keys.len() > 0 {
        lemma_all_kept(keys.drop_last(), stay);
        assert(keys.drop_last().push(keys.last()) =~= keys);
    }
}

proof fn lemma_one_left_out(keys: Seq<Seq<char>>, i: int, stay: Set<Seq<char>>)
    requires
        0 <= i < keys.len(),
        forall|j: int| 0 <= j < keys.len() ==> (stay.contains(#[trigger] keys[j]) <==> j != i),
    ensures
        kept(keys, stay) == keys.remove(i),
    decreases keys.len(),
{
    let front = keys.drop_last();
    if i == front.len() {
        lemma_all_kept(front, stay);
        assert(keys.remove(i) =~= front);
    } else {
        lemma_one_left_out(front, i, stay);
        assert(keys.remove(i) =~= front.remove(i).push(keys.last()));
    }
}

/// To leave keys out and later more is to leave them all out.
pub proof fn lemma_kept_twice(keys: Seq<Seq<char>>, first: Set<Seq<char>>, second: Set<Seq<char>>)
    requires
        second.subset_of(first),
    ensures
        kept(kept(keys, first), second) == kept(keys, second),
    decreases keys.len(),
{
    if keys.len() > 0 {
        lemma_kept_twice(keys.drop_last(), first, second);
        let before = kept(keys.drop_last(), first);
        assert(before.push(keys.last()).drop_last() =~= before);
    }
}

/// The entries whose values pass a test.
pub open spec fn retained<V>(m: Map<Seq<char>, V>, pass: spec_fn(V) -> bool) -> Map<Seq<char>, V> {
    m.restrict(Set::new(|k: Seq<char>| m.contains_key(k) && pass(m[k])))
}

impl<V> KeyMap<V> {
    #[verifier::type_invariant]
    spec fn fits(self) -> bool {
        self.table.wf()
    }

    /// The keys, in the order in which they came.
    pub closed spec fn keys(self) -> Seq<Seq<char>> {
        keys_of(self.table.entries@)
    }

    /// A map without entries.
    pub fn new() -> (r: Self)
        ensures
            r@ == Map::<Seq<char>, V>::empty(),
            r.keys() == Seq::<Seq<char>>::empty(),
    {
        let table: Table<V> = Table::new();
        assert(map_of(table.entries@) =~= Map::<Seq<char>, V>::empty());
        assert(keys_of(table.entries@) =~= Seq::<Seq<char>>::empty());
        KeyMap { table }
    }

    /// How many keys there are. No key occurs twice, and the keys are those of the map.
    pub fn len(&self) -> (r: usize)
        ensures
            r == self.keys().len(),
            r == self@.dom().len(),
            self@.dom().finite(),
            self.keys().no_duplicates(),
            forall|k: Seq<char>| #[trigger] self@.contains_key(k) <==> self.keys().contains(k),
    {
        proof {
            use_type_invariant(self);
            self.keys().unique_seq_to_set();
            assert(self@.dom() =~= self.keys().to_set());
        }
        self.table.entries.len()
    }

    /// Whether there is no key.
    pub fn is_empty(&self) -> (r: bool)
        ensures
            r == (self.keys().len() == 0),
            r == (self@ == Map::<Seq<char>, V>::empty()),
    {
        proof {
            use_type_invariant(self);
            if self.table.entries@.len() > 0 {
                lemma_entry(self.table.entries@, 0);
                assert(!Map::<Seq<char>, V>::empty().contains_key(self.table.entries@[0].0@));
            } else {
                assert(self@ =~= Map::<Seq<char>, V>::empty());
            }
        }
        self.table.entries.len() == 0
    }

    /// The key at `i`.
    pub fn key_at(&self, i: usize) -> (r: &String)
        requires
            i < self.keys().len(),
        ensures
            r@ == self.keys()[i as int],
            self@.contains_key(r@),
    {
        proof {
            use_type_invariant(self);
            lemma_entry(self.table.entries@, i as int);
        }
        &self.table.entries[i].0
    }

    /// The value of the key at `i`.
    pub fn value_at(&self, i: usize) -> (r: &V)
        requires
            i < self.keys().len(),
        ensures
            self@.contains_key(self.keys()[i as int]),
            *r == self@[self.keys()[i as int]],
    {
        proof {
            use_type_invariant(self);
            lemma_entry(self.table.entries@, i as int);
        }
        &self.table.entries[i].1
    }

    fn find(&self, key: &str) -> (r: Option<usize>)
        ensures
            r is Some ==> r->0 < self.table.entries@.len()
                && self.table.entries@[r->0 as int].0@ == key@,
            r is None ==> !keys_of(self.table.entries@).contains(key@),
    {
        proof {
            use_type_invariant(self);
            let keys = keys_of(self.table.entries@);
            if keys.contains(key@) {
                assert(self.table.places@[keys[keys.index_of(key@)]] == keys.index_of(key@));
            }
        }
        match self.table.places.get(key) {
            Some(i) => Some(*i),
            None => None,
        }
    }

    /// Whether there is such a key.
    pub fn contains(&self, key: &str) -> (r: bool)
        ensures
            r == self@.contains_key(key@),
    {
        proof {
            use_type_invariant(self);
        }
        match self.find(key) {
            Some(i) => {
                proof {
                    lemma_entry(self.table.entries@, i as int);
                }
                true
            },
            None => false,
        }
    }

    /// The value of a key.
    pub fn get(&self, key: &str) -> (r: Option<&V>)
        ensures
            r is Some <==> self@.contains_key(key@),
            r is Some ==> *r->0 == self@[key@],
    {
        proof {
            use_type_invariant(self);
        }
        match self.find(key) {
            Some(i) => {
                proof {
                    lemma_entry(self.table.entries@, i as int);
                }
                Some(&self.table.entries[i].1)
            },
            None => None,
        }
    }

    /// Gives a key that there is another value, and returns the one that it had.
    pub fn replace(&mut self, key: &str, value: V) -> (r: Option<V>)
        ensures
            r is Some <==> old(self)@.contains_key(key@),
            r is Some ==> r->0 == old(self)@[key@] && final(self)@ == old(self)@.insert(key@, value),
            r is None ==> final(self)@ == old(self)@,
            final(self).keys() == old(self).keys(),
    {
        proof {
            use_type_invariant(&*self);
        }
        let at = self.find(key);
        match at {
            Some(i) => {
                let mut table: Table<V> = Table::new();
                std::mem::swap(&mut table, &mut self.table);
                let ghost before = table.entries@;
                proof {
                    lemma_entry(before, i as int);
                    lemma_update(before, i as int, value);
                }
                let mut held = value;
                std::mem::swap(&mut held, &mut table.entries[i].1);
                assert(table.entries@ =~= before.update(i as int, (before[i as int].0, value)));
                self.table = table;
                Some(held)
            },
            None => None,
        }
    }

    /// Gives a key a value.
    pub fn insert(&mut self, key: String, value: V)
        ensures
            final(self)@ == old(self)@.insert(key@, value),
            final(self).keys() == (if old(self)@.contains_key(key@) {
                old(self).keys()
            } else {
                old(self).keys().push(key@)
            }),
    {
        if self.contains(key.as_str()) {
            self.replace(key.as_str(), value);
            return;
        }
        proof {
            use_type_invariant(&*self);
        }
        let mut table: Table<V> = Table::new();
        std::mem::swap(&mut table, &mut self.table);
        let ghost before = table.entries@;
        let ghost places = table.places@;
        let place: usize = table.entries.len();
        proof {
            lemma_push(before, key, value);
        }
        table.places.insert(key.clone(), place);
        table.entries.push((key, value));
        proof {
            let keys = keys_of(before);
            let more = keys_of(table.entries@);
            assert(more =~= keys.push(key@));
            assert forall|k: Seq<char>| #[trigger]
                table.places@.contains_key(k) <==> more.contains(k) by {
                if keys.contains(k) {
                    assert(more[keys.index_of(k)] == k);
                }
                if more.contains(k) && k != key@ {
                    assert(keys[more.index_of(k)] == k);
                }
                assert(more[keys.len() as int] == key@);
            }
            assert forall|i: int| 0 <= i < more.len() implies #[trigger] table.places@[more[i]]
                == i by {
                if i < keys.len() {
                    assert(keys.contains(keys[i]));
                    assert(places[keys[i]] == i);
                }
            }
        }
        self.table = table;
    }

    /// Takes a key out.
    pub fn remove(&mut self, key: &str) -> (r: Option<V>)
        ensures
            r is Some <==> old(self)@.contains_key(key@),
            r is Some ==> r->0 == old(self)@[key@],
            final(self)@ == old(self)@.remove(key@),
            final(self).keys() == kept(old(self).keys(), final(self)@.dom()),
    {
        proof {
            use_type_invariant(&*self);
        }
        let at = self.find(key);
        match at {
            Some(i) => {
                let mut table: Table<V> = Table::new();
                std::mem::swap(&mut table, &mut self.table);
                let ghost before = table.entries@;
                let ghost keys = keys_of(before);
                let ghost places = table.places@;
                proof {
                    lemma_entry(before, i as int);
                    lemma_remove(before, i as int);
                }
                let (_, value) = table.entries.remove(i);
                table.places.remove(key);
                let ghost less = keys_of(table.entries@);
                assert(less =~= keys.remove(i as int));
                proof {
                    let stay = map_of(table.entries@).dom();
                    assert forall|j: int| 0 <= j < keys.len() implies (stay.contains(
                        #[trigger] keys[j],
                    ) <==> j != i) by {
                        assert(keys.contains(keys[j]));
                        assert(map_of(before).contains_key(keys[j]));
                        assert(keys[i as int] == key@);
                    }
                    lemma_one_left_out(keys, i as int, stay);
                    assert forall|k: Seq<char>| #[trigger]
                        table.places@.contains_key(k) <==> less.contains(k) by {
                        if less.contains(k) {
                            let a = less.index_of(k);
                            let x = if a < i { a } else { a + 1 };
                            assert(keys[x] == k);
                            assert(keys[i as int] == key@);
                        }
                        if keys.contains(k) && k != key@ {
                            let x = keys.index_of(k);
                            let a = if x < i { x } else { x - 1 };
                            assert(less[a] == k);
                        }
                    }
                    assert forall|a: int| 0 <= a < i implies #[trigger] table.places@[less[a]]
                        == a by {
                        assert(less[a] == keys[a]);
                        assert(places[keys[a]] == a);
                        assert(keys[i as int] == key@);
                    }
                }
                let mut j: usize = i;
                while j < table.entries.len()
                    invariant
                        i <= j <= table.entries@.len(),
                        less == keys_of(table.entries@),
                        less.no_duplicates(),
                        table.entries@ == before.remove(i as int),
                        forall|k: Seq<char>| #[trigger]
                            table.places@.contains_key(k) <==> less.contains(k),
                        forall|a: int|
                            0 <= a < j ==> #[trigger] table.places@[less[a]] == a,
                    decreases table.entries@.len() - j,
                {
                    let moved = table.entries[j].0.clone();
                    assert(less[j as int] == moved@);
                    assert(less.contains(less[j as int]));
                    table.places.insert(moved, j);
                    j += 1;
                }
                self.table = table;
                Some(value)
            },
            None => {
                proof {
                    assert(self@.remove(key@) =~= self@);
                    let keys = self.keys();
                    assert forall|i: int| 0 <= i < keys.len() implies self@.dom().contains(
                        #[trigger] keys[i],
                    ) by {
                        assert(keys.contains(keys[i]));
                    }
                    lemma_all_kept(keys, self@.dom());
                }
                None
            },
        }
    }

    /// Takes the listed keys out.
    pub fn remove_all(&mut self, keys: &Vec<String>)
        ensures
            final(self)@ == old(self)@.remove_keys(views(keys@).to_set()),
            final(self).keys() == kept(old(self).keys(), final(self)@.dom()),
    {
        let ghost all = views(keys@);
        proof {
            use_type_invariant(&*self);
            let there = self.keys();
            assert forall|i: int| 0 <= i < there.len() implies self@.dom().contains(
                #[trigger] there[i],
            ) by {
                assert(there.contains(there[i]));
            }
            lemma_all_kept(there, self@.dom());
        }
        let mut i: usize = 0;
        assert(self@ =~= old(self)@.remove_keys(all.take(0).to_set()));
        while i < keys.len()
            invariant
                i <= keys.len(),
                all == views(keys@),
                self@ == old(self)@.remove_keys(all.take(i as int).to_set()),
                self.keys() == kept(old(self).keys(), self@.dom()),
            decreases keys.len() - i,
        {
            let ghost before = self@;
            self.remove(keys[i].as_str());
            proof {
                let some = all.take(i as int);
                let more = all.take(i + 1);
                assert forall|k: Seq<char>| #[trigger]
                    more.to_set().contains(k) == (some.to_set().contains(k) || k
                        == keys@[i as int]@) by {
                    if more.contains(k) {
                        let j = more.index_of(k);
                        if j < i {
                            assert(some[j] == k);
                        }
                    }
                    if some.contains(k) {
                        assert(more[some.index_of(k)] == k);
                    }
                    assert(more[i as int] == keys@[i as int]@);
                }
                assert(self@ =~= old(self)@.remove_keys(more.to_set()));
                lemma_kept_twice(old(self).keys(), before.dom(), self@.dom());
            }
            i += 1;
        }
        assert(all.take(all.len() as int) =~= all);
    }

    /// Keeps the keys that `keep` marks, by their places.
    pub(crate) fn retain(&mut self, keep: &Vec<bool>, Ghost(pass): Ghost<spec_fn(V) -> bool>)
        requires
            keep@.len() == old(self).keys().len(),
            forall|i: int|
                0 <= i < keep@.len() ==> #[trigger] keep@[i] == pass(old(self)@[old(self).keys()[i]]),
        ensures
            final(self)@ == retained(old(self)@, pass),
            final(self).keys() == kept(old(self).keys(), final(self)@.dom()),
    {
        let ghost keys = self.keys();
        let n: usize = self.len();
        let mut gone: Vec<String> = Vec::new();
        let mut i: usize = 0;
        assert(views(gone@) =~= Seq::<Seq<char>>::empty());
        while i < n
            invariant
                i <= n,
                n == keys.len(),
                n == keep@.len(),
                keys == self.keys(),
                keys == old(self).keys(),
                self@ == old(self)@,
                forall|k: Seq<char>|
                    views(gone@).contains(k) <==> exists|j: int|
                        0 <= j < i && #[trigger] keys[j] == k && !keep@[j],
            decreases n - i,
        {
            let ghost was = views(gone@);
            if !keep[i] {
                let key = self.key_at(i).clone();
                gone.push(key);
                assert(views(gone@) =~= was.push(keys[i as int]));
                assert forall|k: Seq<char>|
                    views(gone@).contains(k) <==> exists|j: int|
                        0 <= j < i + 1 && #[trigger] keys[j] == k && !keep@[j] by {
                    if views(gone@).contains(k) && k != keys[i as int] {
                        let a = views(gone@).index_of(k);
                        assert(was[a] == k);
                    }
                    if was.contains(k) {
                        assert(views(gone@)[was.index_of(k)] == k);
                    }
                    assert(views(gone@)[was.len() as int] == keys[i as int]);
                }
            }
            i += 1;
        }
        self.remove_all(&gone);
        proof {
            assert forall|k: Seq<char>| old(self)@.contains_key(k) implies views(gone@).contains(k)
                == !pass(old(self)@[k]) by {
                let j = keys.index_of(k);
                assert(keys[j] == k);
                assert(keep@[j] == pass(old(self)@[k]));
                if views(gone@).contains(k) {
                    let a = choose|a: int| 0 <= a < n && #[trigger] keys[a] == k && !keep@[a];
                    assert(a == j);
                }
            }
            assert(self@ =~= retained(old(self)@, pass));
        }
    }
}

} // verus!
