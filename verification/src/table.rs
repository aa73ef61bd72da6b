//! Tables keyed by text, and sets of names.

use vstd::prelude::*;
use crate::text::same_text;
use crate::text::texts;

verus! {

/// The entry of `entries` at `i` is filed under `key`.
spec fn filed<V>(entries: Seq<(String, V)>, i: int, key: Seq<char>) -> bool {
    0 <= i < entries.len() && entries[i].0@ == key
}

/// No key occurs twice.
spec fn keys_distinct<V>(entries: Seq<(String, V)>) -> bool {
    forall|i: int, j: int|
        0 <= i < j < entries.len() ==> (#[trigger] entries[i]).0@ != (#[trigger] entries[j]).0@
}

/// What a list of entries stands for.
spec fn contents<V: View>(entries: Seq<(String, V)>) -> Map<Seq<char>, V::V>
    decreases entries.len(),
{
    if entries.len() == 0 {
        Map::empty()
    } else {
        contents(entries.drop_last()).insert(entries.last().0@, entries.last().1@)
    }
}

proof fn lemma_contents<V: View>(entries: Seq<(String, V)>)
    requires
        keys_distinct(entries),
    ensures
        contents(entries).dom().finite(),
        contents(entries).dom().len() == entries.len(),
        forall|key: Seq<char>| #[trigger]
            contents(entries).contains_key(key) <==> exists|i: int| filed(entries, i, key),
        forall|i: int|
            0 <= i < entries.len() ==> contents(entries)[(#[trigger] entries[i]).0@]
                == entries[i].1@,
    decreases entries.len(),
{
    if entries.len() > 0 {
        let init = entries.drop_last();
        lemma_contents(init);
        let last = entries.last();
        assert(!contents(init).contains_key(last.0@)) by {
            if contents(init).contains_key(last.0@) {
                let i = choose|i: int| filed(init, i, last.0@);
                assert(entries[i].0@ != entries[entries.len() - 1].0@);
            }
        }
        assert(contents(entries).dom() == contents(init).dom().insert(last.0@));
        assert forall|key: Seq<char>| #[trigger]
            contents(entries).contains_key(key) <==> exists|i: int| filed(entries, i, key) by {
            if contents(entries).contains_key(key) {
                if key == last.0@ {
                    assert(filed(entries, entries.len() - 1, key));
                } else {
                    let i = choose|i: int| filed(init, i, key);
                    assert(filed(entries, i, key));
                }
            }
            if exists|i: int| filed(entries, i, key) {
                let i = choose|i: int| filed(entries, i, key);
                if i < init.len() {
                    assert(filed(init, i, key));
                }
            }
        }
        assert forall|i: int| 0 <= i < entries.len() implies contents(entries)[(
        #[trigger] entries[i]).0@] == entries[i].1@ by {
            if i < init.len() {
                assert(init[i] == entries[i]);
                assert(entries[i].0@ != entries[entries.len() - 1].0@);
            }
        }
    }
}

proof fn lemma_removed<V: View>(entries: Seq<(String, V)>, at: int)
    requires
        keys_distinct(entries),
        0 <= at < entries.len(),
    ensures
        keys_distinct(entries.remove(at)),
        contents(entries.remove(at)) == contents(entries).remove(entries[at].0@),
{
    let rest = entries.remove(at);
    assert forall|i: int, j: int| 0 <= i < j < rest.len() implies (#[trigger] rest[i]).0@ != (
    #[trigger] rest[j]).0@ by {
        let i2 = if i < at { i } else { i + 1 };
        let j2 = if j < at { j } else { j + 1 };
        assert(rest[i] == entries[i2] && rest[j] == entries[j2]);
    }
    lemma_contents(entries);
    lemma_contents(rest);
    let key = entries[at].0@;
    let expected = contents(entries).remove(key);
    assert forall|k: Seq<char>| contents(rest).contains_key(k) <==> expected.contains_key(k) by {
        if contents(rest).contains_key(k) {
            let i = choose|i: int| filed(rest, i, k);
            let i2 = if i < at { i } else { i + 1 };
            assert(filed(entries, i2, k));
            assert(entries[i2].0@ != entries[at].0@);
        }
        if expected.contains_key(k) {
            let i = choose|i: int| filed(entries, i, k);
            assert(filed(rest, if i < at { i } else { i - 1 }, k));
        }
    }
    assert forall|k: Seq<char>| #[trigger] contents(rest).contains_key(k) implies contents(rest)[k]
        == expected[k] by {
        let i = choose|i: int| filed(rest, i, k);
        let i2 = if i < at { i } else { i + 1 };
        assert(rest[i] == entries[i2]);
        assert(contents(rest)[rest[i].0@] == rest[i].1@);
        assert(contents(entries)[entries[i2].0@] == entries[i2].1@);
    }
    assert(contents(rest) =~= expected);
}

/// A table of values keyed by text.
pub struct Table<V> {
    entries: Vec<(String, V)>,
}

impl<V: View> View for Table<V> {
    type V = Map<Seq<char>, V::V>;

    closed spec fn view(&self) -> Map<Seq<char>, V::V> {
        contents(self.entries@)
    }
}

impl<V> Table<V> {
    #[verifier::type_invariant]
    spec fn well_formed(self) -> bool {
        keys_distinct(self.entries@)
    }
}

impl<V: View> Table<V> {
    /// The table without entries.
    pub fn new() -> (r: Self)
        ensures
            r@ == Map::<Seq<char>, V::V>::empty(),
    {
        Table { entries: Vec::new() }
    }

    /// The number of entries.
    pub fn len(&self) -> (r: usize)
        ensures
            self@.dom().finite(),
            r == self@.dom().len(),
    {
        proof {
            use_type_invariant(self);
            lemma_contents(self.entries@);
        }
        self.entries.len()
    }

    /// Where the entry of `key` stands, or the number of entries.
    fn position(&self, key: &str) -> (r: usize)
        ensures
            r <= self.entries@.len(),
            r < self.entries@.len() ==> filed(self.entries@, r as int, key@),
            r == self.entries@.len() ==> !self@.contains_key(key@),
    {
        proof {
            use_type_invariant(self);
            lemma_contents(self.entries@);
        }
        let mut i: usize = 0;
        while i < self.entries.len()
            invariant
                i <= self.entries@.len(),
                forall|j: int| 0 <= j < i ==> !filed(self.entries@, j, key@),
            decreases self.entries@.len() - i,
        {
            if same_text(self.entries[i].0.as_str(), key) {
                return i;
            }
            i += 1;
        }
        i
    }

    /// Whether `key` has a value.
    pub fn contains_key(&self, key: &str) -> (r: bool)
        ensures
            r == self@.contains_key(key@),
    {
        let at = self.position(key);
        proof {
            use_type_invariant(self);
            lemma_contents(self.entries@);
        }
        at < self.entries.len()
    }

    /// The value of `key`.
    pub fn get(&self, key: &str) -> (r: Option<&V>)
        ensures
            match r {
                Some(v) => self@.contains_key(key@) && self@[key@] == v@,
                None => !self@.contains_key(key@),
            },
    {
        let at = self.position(key);
        proof {
            use_type_invariant(self);
            lemma_contents(self.entries@);
        }
        if at < self.entries.len() {
            Some(&self.entries[at].1)
        } else {
            None
        }
    }

    /// Gives `key` the value `value`, in place of the one it may have had.
    pub fn insert(&mut self, key: &str, value: V)
        ensures
            final(self)@ == old(self)@.insert(key@, value@),
    {
        self.remove(key);
        proof {
            use_type_invariant(&*self);
            lemma_contents(self.entries@);
        }
        let ghost before = self.entries@;
        let mut entries: Vec<(String, V)> = Vec::new();
        std::mem::swap(&mut entries, &mut self.entries);
        entries.push((key.to_owned(), value));
        assert(entries@.drop_last() == before);
        assert forall|i: int, j: int| 0 <= i < j < entries@.len() implies (
        #[trigger] entries@[i]).0@ != (#[trigger] entries@[j]).0@ by {
            if j == before.len() {
                assert(!contents(before).contains_key(key@));
                assert(!filed(before, i, key@));
            }
        }
        self.entries = entries;
        assert(self@ =~= old(self)@.insert(key@, value@));
    }

    /// Takes the value of `key` out, where it has one.
    pub fn remove(&mut self, key: &str)
        ensures
            final(self)@ == old(self)@.remove(key@),
    {
        let at = self.position(key);
        proof {
            use_type_invariant(&*self);
            lemma_contents(self.entries@);
        }
        if at < self.entries.len() {
            proof {
                lemma_removed(self.entries@, at as int);
            }
            let mut entries: Vec<(String, V)> = Vec::new();
            std::mem::swap(&mut entries, &mut self.entries);
            entries.remove(at);
            self.entries = entries;
        } else {
            assert(self@ =~= old(self)@.remove(key@));
        }
    }

    /// Takes one entry out.
    pub fn drop_one(&mut self)
        requires
            old(self)@.dom().len() > 0,
        ensures
            exists|key: Seq<char>| #[trigger]
                old(self)@.contains_key(key) && final(self)@ == old(self)@.remove(key),
    {
        proof {
            use_type_invariant(&*self);
            lemma_contents(self.entries@);
            lemma_removed(self.entries@, 0);
            assert(filed(self.entries@, 0, self.entries@[0].0@));
            assert(old(self)@.contains_key(self.entries@[0].0@));
        }
        let mut entries: Vec<(String, V)> = Vec::new();
        std::mem::swap(&mut entries, &mut self.entries);
        entries.remove(0);
        self.entries = entries;
    }

    /// The keys, each once.
    pub fn keys(&self) -> (r: Vec<String>)
        ensures
            texts(r@).no_duplicates(),
            texts(r@).to_set() == self@.dom(),
    {
        proof {
            use_type_invariant(self);
            lemma_contents(self.entries@);
        }
        let mut r: Vec<String> = Vec::new();
        let mut i: usize = 0;
        while i < self.entries.len()
            invariant
                i <= self.entries@.len(),
                r@.len() == i,
                forall|j: int| 0 <= j < i ==> #[trigger] r@[j]@ == self.entries@[j].0@,
            decreases self.entries@.len() - i,
        {
            r.push(self.entries[i].0.clone());
            i += 1;
        }
        let ghost listed = texts(r@);
        assert forall|j: int, k: int| 0 <= j < k < listed.len() implies listed[j] != listed[k] by {
            assert(r@[j]@ == self.entries@[j].0@);
            assert(r@[k]@ == self.entries@[k].0@);
        }
        assert forall|key: Seq<char>| listed.to_set().contains(key) <==> self@.dom().contains(
            key,
        ) by {
            if listed.contains(key) {
                let j = choose|j: int| 0 <= j < listed.len() && listed[j] == key;
                assert(r@[j]@ == self.entries@[j].0@);
                assert(filed(self.entries@, j, key));
            }
            if self@.contains_key(key) {
                let j = choose|j: int| filed(self.entries@, j, key);
                assert(r@[j]@ == self.entries@[j].0@);
                assert(listed[j] == key);
            }
        }
        assert(listed.to_set() =~= self@.dom());
        r
    }
}

/// A set of names.
pub struct NameSet {
    names: Vec<String>,
}

impl View for NameSet {
    type V = Set<Seq<char>>;

    closed spec fn view(&self) -> Set<Seq<char>> {
        texts(self.names@).to_set()
    }
}

impl NameSet {
    #[verifier::type_invariant]
    spec fn well_formed(self) -> bool {
        texts(self.names@).no_duplicates()
    }

    /// The set without names.
    pub fn new() -> (r: NameSet)
        ensures
            r@ == Set::<Seq<char>>::empty(),
    {
        let r = NameSet { names: Vec::new() };
        assert(r@ =~= Set::<Seq<char>>::empty());
        r
    }

    /// Whether `name` is in the set.
    pub fn contains(&self, name: &str) -> (r: bool)
        ensures
            r == self@.contains(name@),
    {
        let ghost all = texts(self.names@);
        let mut i: usize = 0;
        while i < self.names.len()
            invariant
                i <= self.names@.len(),
                all == texts(self.names@),
                forall|j: int| 0 <= j < i ==> #[trigger] all[j] != name@,
            decreases self.names@.len() - i,
        {
            if same_text(self.names[i].as_str(), name) {
                assert(all[i as int] == name@);
                return true;
            }
            i += 1;
        }
        false
    }

    /// Puts `name` into the set.
    pub fn insert(&mut self, name: String)
        ensures
            final(self)@ == old(self)@.insert(name@),
    {
        if self.contains(name.as_str()) {
            assert(self@ =~= old(self)@.insert(name@));
            return ;
        }
        proof {
            use_type_invariant(&*self);
        }
        let ghost before = texts(self.names@);
        let mut names: Vec<String> = Vec::new();
        assert(texts(names@) =~= Seq::<Seq<char>>::empty());
        std::mem::swap(&mut names, &mut self.names);
        names.push(name);
        let ghost after = texts(names@);
        assert(after =~= before.push(name@));
        assert(after.no_duplicates()) by {
            assert forall|i: int, j: int| 0 <= i < j < after.len() implies after[i] != after[j] by {
                if j == before.len() {
                    assert(before.contains(after[i]));
                }
            }
        }
        self.names = names;
        assert(self@ =~= old(self)@.insert(name@)) by {
            assert forall|n: Seq<char>| after.contains(n) <==> (before.contains(n) || n == name@) by {
                if before.contains(n) {
                    let i = choose|i: int| 0 <= i < before.len() && before[i] == n;
                    assert(after[i] == n);
                }
                if n == name@ {
                    assert(after[before.len() as int] == n);
                }
            }
        }
    }

    /// The names of this set that `other` does not have, each once.
    pub fn difference(&self, other: &NameSet) -> (r: Vec<String>)
        ensures
            texts(r@).no_duplicates(),
            texts(r@).to_set() == self@.difference(other@),
    {
        proof {
            use_type_invariant(self);
        }
        let ghost all = texts(self.names@);
        let mut r: Vec<String> = Vec::new();
        let mut i: usize = 0;
        while i < self.names.len()
            invariant
                i <= self.names@.len(),
                all == texts(self.names@),
                all.no_duplicates(),
                texts(r@).no_duplicates(),
                forall|n: Seq<char>| #[trigger]
                    texts(r@).contains(n) <==> all.take(i as int).contains(n)
                        && !other@.contains(n),
            decreases self.names@.len() - i,
        {
            let name = self.names[i].as_str();
            let ghost before = texts(r@);
            let ghost seen = all.take(i as int);
            let ghost longer = all.take(i + 1);
            assert(longer == seen.push(name@));
            assert(!seen.contains(name@)) by {
                if seen.contains(name@) {
                    let j = choose|j: int| 0 <= j < seen.len() && seen[j] == name@;
                    assert(all[j] == all[i as int]);
                }
            }
            let absent = !other.contains(name);
            if absent {
                r.push(self.names[i].clone());
                assert(texts(r@) =~= before.push(name@));
                assert(!before.contains(name@));
                assert(texts(r@).no_duplicates()) by {
                    let after = texts(r@);
                    assert forall|j: int, k: int| 0 <= j < k < after.len() implies after[j]
                        != after[k] by {
                        if k == before.len() {
                            assert(before.contains(after[j]));
                        }
                    }
                }
            }
            assert forall|n: Seq<char>| #[trigger]
                texts(r@).contains(n) <==> longer.contains(n) && !other@.contains(n) by {
                lemma_push_contains(seen, name@, n);
                if absent {
                    lemma_push_contains(before, name@, n);
                }
            }
            i += 1;
        }
        assert(all.take(i as int) == all);
        assert(texts(r@).to_set() =~= self@.difference(other@));
        r
    }
}

proof fn lemma_push_contains(s: Seq<Seq<char>>, x: Seq<char>, n: Seq<char>)
    ensures
        s.push(x).contains(n) <==> s.contains(n) || n == x,
{
    if s.contains(n) {
        let i = choose|i: int| 0 <= i < s.len() && s[i] == n;
        assert(s.push(x)[i] == n);
    }
    if n == x {
        assert(s.push(x)[s.len() as int] == n);
    }
}

} // verus!
