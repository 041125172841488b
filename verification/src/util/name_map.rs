//! A table keyed by name that keeps its entries in the order of the names.

use vstd::prelude::*;
use vstd::utf8::*;

verus! {

/// `a` and `b` agree on their first `k` bytes, and there `a` ends or holds the smaller byte.
pub open spec fn bytes_before_at(a: Seq<u8>, b: Seq<u8>, k: int) -> bool {
    &&& 0 <= k <= a.len()
    &&& k < b.len()
    &&& forall|i: int| 0 <= i < k ==> a[i] == b[i]
    &&& (k == a.len() || a[k] < b[k])
}

/// `a` comes before `b` in the order of the dictionary.
pub open spec fn bytes_before(a: Seq<u8>, b: Seq<u8>) -> bool {
    exists|k: int| bytes_before_at(a, b, k)
}

/// The order of names: that of their UTF-8 bytes, which is how std orders strings.
pub open spec fn name_before(a: Seq<char>, b: Seq<char>) -> bool {
    bytes_before(encode_utf8(a), encode_utf8(b))
}

/// Each of `names` comes before all that follow it.
pub open spec fn increasing(names: Seq<Seq<char>>) -> bool {
    forall|i: int, j: int| 0 <= i < j < names.len() ==> name_before(names[i], names[j])
}

/// How many of `names` come before `name`.
pub open spec fn rank(names: Seq<Seq<char>>, name: Seq<char>) -> int
    decreases names.len(),
{
    if names.len() == 0 {
        0
    } else {
        rank(names.drop_last(), name) + if name_before(names.last(), name) {
            1int
        } else {
            0int
        }
    }
}

/// `names` with `name` among them: put at its rank where it was missing.
pub open spec fn with_name(names: Seq<Seq<char>>, name: Seq<char>) -> Seq<Seq<char>> {
    if names.contains(name) {
        names
    } else {
        names.insert(rank(names, name), name)
    }
}

/// What comes before something that comes before a third comes before the third.
pub proof fn lemma_bytes_before_transitive(a: Seq<u8>, b: Seq<u8>, c: Seq<u8>)
    requires
        bytes_before(a, b),
        bytes_before(b, c),
    ensures
        bytes_before(a, c),
{
    let k1 = choose|k: int| bytes_before_at(a, b, k);
    let k2 = choose|k: int| bytes_before_at(b, c, k);
    if k1 <= k2 {
        assert(bytes_before_at(a, c, k1));
    } else {
        assert(bytes_before_at(a, c, k2));
    }
}

/// In an increasing run of names, the rank of a name is the place where the names before it
/// end.
pub proof fn lemma_rank_is_place(names: Seq<Seq<char>>, name: Seq<char>, place: int)
    requires
        0 <= place <= names.len(),
        forall|j: int| 0 <= j < place ==> name_before(names[j], name),
        forall|j: int| place <= j < names.len() ==> !name_before(names[j], name),
    ensures
        rank(names, name) == place,
    decreases names.len(),
{
    if names.len() > 0 {
        let init = names.drop_last();
        if place == names.len() {
            lemma_rank_is_place(init, name, place - 1);
        } else {
            lemma_rank_is_place(init, name, place);
        }
    }
}

/// A name put at its rank into an increasing run of names leaves the run increasing.
pub proof fn lemma_with_name_increasing(names: Seq<Seq<char>>, name: Seq<char>)
    requires
        increasing(names),
    ensures
        increasing(with_name(names, name)),
        with_name(names, name).contains(name),
        forall|other: Seq<char>|
            with_name(names, name).contains(other) <==> (other == name || names.contains(other)),
{
    if !names.contains(name) {
        let place = lemma_place_exists(names, name);
        lemma_rank_is_place(names, name, place);
        let grown = names.insert(place, name);
        assert(grown[place] == name);
        assert forall|other: Seq<char>| grown.contains(other) <==> (other == name
            || names.contains(other)) by {
            if names.contains(other) {
                let i = choose|i: int| 0 <= i < names.len() && names[i] == other;
                if i < place {
                    assert(grown[i] == other);
                } else {
                    assert(grown[i + 1] == other);
                }
            }
        }
    }
}

/// Of two different names one comes before the other.
pub proof fn lemma_names_ordered(a: Seq<char>, b: Seq<char>)
    ensures
        a == b || name_before(a, b) || name_before(b, a),
        !(name_before(a, b) && name_before(b, a)),
        a == b ==> !name_before(a, b),
{
    if a != b {
        encode_utf8_decode_utf8(a);
        encode_utf8_decode_utf8(b);
        lemma_first_difference(encode_utf8(a), encode_utf8(b), 0);
    }
}

/// Two runs of bytes that agree on their first `k` bytes and are not equal are ordered.
proof fn lemma_first_difference(x: Seq<u8>, y: Seq<u8>, k: int)
    requires
        0 <= k <= x.len(),
        k <= y.len(),
        forall|i: int| 0 <= i < k ==> x[i] == y[i],
        x != y,
    ensures
        bytes_before(x, y) || bytes_before(y, x),
    decreases x.len() - k,
{
    if k < x.len() && k < y.len() && x[k] == y[k] {
        lemma_first_difference(x, y, k + 1);
    } else if k == x.len() && k == y.len() {
        assert(x =~= y);
    } else if k == x.len() || (k < y.len() && x[k] < y[k]) {
        assert(bytes_before_at(x, y, k));
    } else {
        assert(bytes_before_at(y, x, k));
    }
}

/// In an increasing run of names that lacks `name`, those before `name` stand first.
proof fn lemma_place_exists(names: Seq<Seq<char>>, name: Seq<char>) -> (place: int)
    requires
        increasing(names),
        !names.contains(name),
    ensures
        0 <= place <= names.len(),
        forall|j: int| 0 <= j < place ==> name_before(names[j], name),
        forall|j: int| place <= j < names.len() ==> !name_before(names[j], name),
        forall|j: int| place <= j < names.len() ==> name_before(name, names[j]),
    decreases names.len(),
{
    if names.len() == 0 {
        0
    } else {
        let init = names.drop_last();
        let place = lemma_place_exists(init, name);
        let last = names.last();
        lemma_names_ordered(last, name);
        if name_before(last, name) {
            assert forall|j: int| 0 <= j < names.len() implies name_before(names[j], name) by {
                if j < names.len() - 1 {
                    assert(name_before(names[j], names[names.len() - 1]));
                    lemma_bytes_before_transitive(
                        encode_utf8(names[j]),
                        encode_utf8(last),
                        encode_utf8(name),
                    );
                }
            }
            names.len() as int
        } else {
            assert forall|j: int| 0 <= j < place implies name_before(names[j], name) by {
                assert(init[j] == names[j]);
            }
            assert forall|j: int| place <= j < names.len() implies !name_before(names[j], name)
                && name_before(name, names[j]) by {
                if j < names.len() - 1 {
                    assert(init[j] == names[j]);
                }
            }
            place
        }
    }
}

/// The place in `names` where `name` stands.
pub open spec fn place_of(names: Seq<Seq<char>>, name: Seq<char>) -> int {
    choose|i: int| 0 <= i < names.len() && names[i] == name
}

/// In an increasing run of names no name stands twice, so each is found at its own place.
pub proof fn lemma_place_of(names: Seq<Seq<char>>, i: int)
    requires
        increasing(names),
        0 <= i < names.len(),
    ensures
        place_of(names, names[i]) == i,
{
    let j = place_of(names, names[i]);
    lemma_names_ordered(names[i], names[j]);
}

/// How one name stands to another.
enum Side {
    Before,
    Same,
    After,
}

/// On which side of `b` the name `a` stands.
fn side_of(a: &str, b: &str) -> (side: Side)
    ensures
        match side {
            Side::Before => name_before(a@, b@),
            Side::Same => a@ == b@,
            Side::After => name_before(b@, a@),
        },
{
    let x = a.as_bytes();
    let y = b.as_bytes();
    let n = x.len();
    let m = y.len();
    let mut k: usize = 0;
    while k < n && k < m
        invariant
            x@ == encode_utf8(a@),
            y@ == encode_utf8(b@),
            n == x@.len(),
            m == y@.len(),
            k <= n,
            k <= m,
            forall|i: int| 0 <= i < k ==> x@[i] == y@[i],
        decreases n - k,
    {
        if x[k] < y[k] {
            assert(bytes_before_at(x@, y@, k as int));
            return Side::Before;
        }
        if y[k] < x[k] {
            assert(bytes_before_at(y@, x@, k as int));
            return Side::After;
        }
        k += 1;
    }
    if n < m {
        assert(bytes_before_at(x@, y@, k as int));
        Side::Before
    } else if m < n {
        assert(bytes_before_at(y@, x@, k as int));
        Side::After
    } else {
        proof {
            assert(x@ =~= y@);
            encode_utf8_decode_utf8(a@);
            encode_utf8_decode_utf8(b@);
        }
        Side::Same
    }
}

/// A table from names to values, which hands its entries out in the order of the names.
///
/// No name stands in it twice. Seen as a map it is `self@`; the names in the order in which
/// the entries are listed are `self.names()`.
#[derive(Debug)]
pub struct NameMap<V> {
    entries: Vec<(String, V)>,
}

impl<V> View for NameMap<V> {
    type V = Map<Seq<char>, V>;

    closed spec fn view(&self) -> Map<Seq<char>, V> {
        Map::new(
            |name: Seq<char>| self.names().contains(name),
            |name: Seq<char>| self.entries@[place_of(self.names(), name)].1,
        )
    }
}

impl<V> NameMap<V> {
    #[verifier::type_invariant]
    spec fn in_order(&self) -> bool {
        increasing(self.names())
    }

    /// The names of the entries, in the order in which the table lists them.
    pub closed spec fn names(&self) -> Seq<Seq<char>> {
        Seq::new(self.entries@.len(), |i: int| self.entries@[i].0@)
    }

    /// The table without entries.
    pub fn new() -> (table: Self)
        ensures
            table@ == Map::<Seq<char>, V>::empty(),
            table.names() == Seq::<Seq<char>>::empty(),
    {
        let table = NameMap { entries: Vec::new() };
        table
    }

    /// The number of entries.
    pub fn len(&self) -> (n: usize)
        ensures
            n == self.names().len(),
            forall|name: Seq<char>| self@.contains_key(name) <==> self.names().contains(name),
    {
        self.entries.len()
    }

    /// Whether the table is without entries.
    pub fn is_empty(&self) -> (empty: bool)
        ensures
            empty == (self.names().len() == 0),
            empty == (self@ == Map::<Seq<char>, V>::empty()),
    {
        proof {
            if self.entries@.len() == 0 {
                assert(self@ =~= Map::<Seq<char>, V>::empty());
            } else {
                assert(self@.contains_key(self.names()[0]));
            }
        }
        self.entries.len() == 0
    }

    /// The name of the entry listed at place `i`. The names are listed in increasing order,
    /// and each is a key of the map.
    pub fn key_at(&self, i: usize) -> (name: &String)
        requires
            i < self.names().len(),
        ensures
            name@ == self.names()[i as int],
            self@.contains_key(name@),
            increasing(self.names()),
    {
        proof {
            use_type_invariant(self);
        }
        &self.entries[i].0
    }

    /// The value of the entry listed at place `i`.
    pub fn value_at(&self, i: usize) -> (value: &V)
        requires
            i < self.names().len(),
        ensures
            self@.contains_key(self.names()[i as int]),
            *value == self@[self.names()[i as int]],
    {
        proof {
            use_type_invariant(self);
            lemma_place_of(self.names(), i as int);
        }
        &self.entries[i].1
    }

    /// Where `name` stands or would stand, and whether it stands there.
    fn locate(&self, name: &str) -> (at: (usize, bool))
        ensures
            at.0 <= self.names().len(),
            forall|j: int| 0 <= j < at.0 ==> name_before(#[trigger] self.names()[j], name@),
            at.1 ==> at.0 < self.names().len() && self.names()[at.0 as int] == name@,
            !at.1 ==> !self.names().contains(name@) && rank(self.names(), name@) == at.0,
    {
        proof {
            use_type_invariant(self);
        }
        let n = self.entries.len();
        let mut i: usize = 0;
        while i < n
            invariant
                n == self.names().len(),
                n == self.entries@.len(),
                increasing(self.names()),
                i <= n,
                forall|j: int| 0 <= j < i ==> name_before(#[trigger] self.names()[j], name@),
            decreases n - i,
        {
            match side_of(self.entries[i].0.as_str(), name) {
                Side::Before => {
                    i += 1;
                },
                Side::Same => {
                    return (i, true);
                },
                Side::After => {
                    proof {
                        self.lemma_absent_from(name@, i as int);
                    }
                    return (i, false);
                },
            }
        }
        proof {
            self.lemma_absent_from(name@, i as int);
        }
        (i, false)
    }

    /// Where the names before `place` come before `name` and the one at `place`, if there
    /// is one, comes behind it, `name` is not in the table and `place` is its rank.
    proof fn lemma_absent_from(&self, name: Seq<char>, place: int)
        requires
            increasing(self.names()),
            0 <= place <= self.names().len(),
            forall|j: int| 0 <= j < place ==> name_before(#[trigger] self.names()[j], name),
            place < self.names().len() ==> name_before(name, self.names()[place]),
        ensures
            !self.names().contains(name),
            rank(self.names(), name) == place,
            forall|j: int|
                place <= j < self.names().len() ==> name_before(name, #[trigger] self.names()[j]),
    {
        let names = self.names();
        assert forall|j: int| place <= j < names.len() implies name_before(
            name,
            #[trigger] names[j],
        ) && !name_before(names[j], name) by {
            if place < j {
                assert(name_before(names[place], names[j]));
            }
            lemma_names_ordered(name, names[j]);
        }
        lemma_rank_is_place(names, name, place);
    }

    /// The value that stands under `name`, if the table has that name.
    pub fn get(&self, name: &str) -> (found: Option<&V>)
        ensures
            match found {
                Some(value) => self@.contains_key(name@) && *value == self@[name@],
                None => !self@.contains_key(name@),
            },
    {
        proof {
            use_type_invariant(self);
        }
        let (i, present) = self.locate(name);
        if present {
            proof {
                lemma_place_of(self.names(), i as int);
            }
            Some(&self.entries[i].1)
        } else {
            None
        }
    }

    /// Whether the table has an entry under `name`.
    pub fn contains_key(&self, name: &str) -> (present: bool)
        ensures
            present == self@.contains_key(name@),
    {
        self.get(name).is_some()
    }

    /// Puts `value` under `name`. An entry that stood under that name is replaced and
    /// its value handed back; a new name takes its place in the order of the names.
    pub fn insert(&mut self, name: String, value: V) -> (previous: Option<V>)
        ensures
            final(self)@ == old(self)@.insert(name@, value),
            final(self).names() == with_name(old(self).names(), name@),
            increasing(final(self).names()),
            previous == if old(self)@.contains_key(name@) {
                Some(old(self)@[name@])
            } else {
                None::<V>
            },
    {
        proof {
            use_type_invariant(&*self);
        }
        let ghost before = *self;
        let ghost key = name@;
        let (i, present) = self.locate(name.as_str());
        let mut entries: Vec<(String, V)> = Vec::new();
        core::mem::swap(&mut self.entries, &mut entries);
        let previous = if present {
            let replaced = entries.remove(i);
            Some(replaced.1)
        } else {
            None
        };
        entries.insert(i, (name, value));
        let ghost grown = Seq::new(entries@.len(), |j: int| entries@[j].0@);
        proof {
            lemma_with_name_increasing(before.names(), key);
            if present {
                lemma_place_of(before.names(), i as int);
                assert(grown =~= before.names());
            } else {
                assert(grown =~= before.names().insert(i as int, key));
            }
        }
        self.entries = entries;
        proof {
            assert forall|other: Seq<char>| #[trigger] self@.contains_key(other) implies self@[other]
                == before@.insert(key, value)[other] by {
                if other != key {
                    let k = place_of(before.names(), other);
                    if present || k < i {
                        lemma_place_of(grown, k);
                    } else {
                        lemma_place_of(grown, k + 1);
                    }
                }
            }
        }
        previous
    }
}

} // verus!
