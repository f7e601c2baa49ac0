use vstd::prelude::*;

verus! {

// --- An association table of strings -------------------------------------
//
// The backing store behind every key/value source: an ordered list of
// entries with pairwise-distinct keys, viewed as a `Map` from key
// characters to value characters.

pub open spec fn keys_unique(entries: Seq<(String, String)>) -> bool {
    forall|i: int, j: int|
        0 <= i < j < entries.len() ==> entries[i].0@ != entries[j].0@
}

/// The map that an entry list denotes: a later entry for a key overrides
/// an earlier one.
pub open spec fn as_map(entries: Seq<(String, String)>) -> Map<Seq<char>, Seq<char>>
    decreases entries.len(),
{
    if entries.len() == 0 {
        Map::empty()
    } else {
        as_map(entries.drop_last()).insert(entries.last().0@, entries.last().1@)
    }
}

pub proof fn lemma_as_map_present(entries: Seq<(String, String)>, j: int)
    requires
        0 <= j < entries.len(),
        forall|i: int| j < i < entries.len() ==> entries[i].0@ != entries[j].0@,
    ensures
        as_map(entries).contains_key(entries[j].0@),
        as_map(entries)[entries[j].0@] == entries[j].1@,
    decreases entries.len(),
{
    if j == entries.len() - 1 {
    } else {
        lemma_as_map_present(entries.drop_last(), j);
    }
}

pub proof fn lemma_as_map_absent(entries: Seq<(String, String)>, k: Seq<char>)
    requires
        forall|i: int| 0 <= i < entries.len() ==> entries[i].0@ != k,
    ensures
        !as_map(entries).contains_key(k),
    decreases entries.len(),
{
    if entries.len() > 0 {
        lemma_as_map_absent(entries.drop_last(), k);
    }
}

pub proof fn lemma_as_map_update(entries: Seq<(String, String)>, j: int, p: (String, String))
    requires
        0 <= j < entries.len(),
        p.0@ == entries[j].0@,
        forall|i: int| 0 <= i < entries.len() && i != j ==> entries[i].0@ != entries[j].0@,
    ensures
        as_map(entries.update(j, p)) == as_map(entries).insert(p.0@, p.1@),
    decreases entries.len(),
{
    let updated = entries.update(j, p);
    if j == entries.len() - 1 {
        assert(updated.drop_last() =~= entries.drop_last());
        assert(as_map(updated) =~= as_map(entries).insert(p.0@, p.1@));
    } else {
        lemma_as_map_update(entries.drop_last(), j, p);
        assert(updated.drop_last() =~= entries.drop_last().update(j, p));
        assert(updated.last() == entries.last());
        assert(as_map(updated) == as_map(entries.drop_last().update(j, p)).insert(
            entries.last().0@,
            entries.last().1@,
        ));
        // The two inserted keys differ, so the inserts commute.
        assert(entries.last().0@ != p.0@);
        assert(as_map(updated) =~= as_map(entries).insert(p.0@, p.1@));
    }
}

pub proof fn lemma_as_map_dom_len(entries: Seq<(String, String)>)
    requires
        keys_unique(entries),
    ensures
        as_map(entries).dom().finite(),
        as_map(entries).dom().len() == entries.len(),
    decreases entries.len(),
{
    if entries.len() == 0 {
        assert(as_map(entries).dom() =~= Set::<Seq<char>>::empty());
    } else {
        assert(keys_unique(entries.drop_last()));
        lemma_as_map_dom_len(entries.drop_last());
        lemma_as_map_absent(entries.drop_last(), entries.last().0@);
        assert(as_map(entries).dom() =~= as_map(entries.drop_last()).dom().insert(
            entries.last().0@,
        ));
    }
}

/// An immutable key/value table with string keys and string values.
pub struct StringMap {
    entries: Vec<(String, String)>,
}

impl View for StringMap {
    type V = Map<Seq<char>, Seq<char>>;

    closed spec fn view(&self) -> Map<Seq<char>, Seq<char>> {
        as_map(self.entries@)
    }
}

impl StringMap {
    #[verifier::type_invariant]
    spec fn wf(self) -> bool {
        keys_unique(self.entries@)
    }

    pub fn new() -> (r: StringMap)
        ensures
            r@ == Map::<Seq<char>, Seq<char>>::empty(),
            r.spec_len() == 0,
    {
        StringMap { entries: Vec::new() }
    }

    pub closed spec fn spec_len(&self) -> nat {
        self.entries@.len()
    }

    /// The number of keys in the table.
    pub fn len(&self) -> (r: usize)
        ensures
            r == self.spec_len(),
            r == self@.dom().len(),
    {
        proof {
            use_type_invariant(self);
            lemma_as_map_dom_len(self.entries@);
        }
        self.entries.len()
    }

    /// Binds `key` to `value`, replacing any earlier binding of the same key.
    #[verifier::loop_isolation(false)]
    pub fn insert(self, key: String, value: String) -> (r: StringMap)
        ensures
            r@ == self@.insert(key@, value@),
            r.spec_len() <= self.spec_len() + 1,
    {
        proof {
            use_type_invariant(&self);
        }
        let StringMap { entries: mut entries } = self;
        let ghost entries0 = entries@;
        let n = entries.len();
        let mut i: usize = 0;
        while i < n
            invariant
                n == entries@.len(),
                i <= n,
                keys_unique(entries@),
                entries@ == entries0,
                forall|m: int| 0 <= m < i ==> entries@[m].0@ != key@,
            decreases n - i,
        {
            if entries[i].0 == key {
                let ghost jj = i as int;
                entries.set(i, (key, value));
                proof {
                    lemma_as_map_update(entries0, jj, entries@[jj]);
                    assert(keys_unique(entries@)) by {
                        assert(forall|m: int|
                            0 <= m < entries0.len() && m != jj ==> entries@[m] == entries0[m]);
                    }
                }
                return StringMap { entries };
            }
            i = i + 1;
        }
        entries.push((key, value));
        proof {
            assert(entries@.drop_last() =~= entries0);
            assert(keys_unique(entries@)) by {
                assert(forall|m: int| 0 <= m < entries0.len() ==> entries@[m] == entries0[m]);
            }
        }
        StringMap { entries }
    }

    /// The value bound to `key`, if any.
    pub fn get(&self, key: &String) -> (r: Option<String>)
        ensures
            match r {
                Some(v) => self@.contains_key(key@) && v@ == self@[key@],
                None => !self@.contains_key(key@),
            },
    {
        proof {
            use_type_invariant(self);
        }
        let n = self.entries.len();
        let mut i: usize = 0;
        while i < n
            invariant
                n == self.entries@.len(),
                i <= n,
                keys_unique(self.entries@),
                self@ == as_map(self.entries@),
                forall|m: int| 0 <= m < i ==> self.entries@[m].0@ != key@,
            decreases n - i,
        {
            if self.entries[i].0 == *key {
                let out = self.entries[i].1.clone();
                proof {
                    lemma_as_map_present(self.entries@, i as int);
                }
                return Some(out);
            }
            i = i + 1;
        }
        proof {
            lemma_as_map_absent(self.entries@, key@);
        }
        None
    }
}

impl Clone for StringMap {
    /// A clone denotes the same table.
    fn clone(&self) -> (r: Self)
        ensures
            r@ == self@,
            r.spec_len() == self.spec_len(),
    {
        proof {
            use_type_invariant(self);
        }
        let mut out: Vec<(String, String)> = Vec::new();
        let mut i: usize = 0;
        let n = self.entries.len();
        while i < n
            invariant
                n == self.entries@.len(),
                i <= n,
                out@ =~= self.entries@.subrange(0, i as int),
            decreases n - i,
        {
            let e = &self.entries[i];
            out.push((e.0.clone(), e.1.clone()));
            assert(out@ =~= self.entries@.subrange(0, i + 1));
            i = i + 1;
        }
        assert(out@ =~= self.entries@);
        StringMap { entries: out }
    }
}

} // verus!
