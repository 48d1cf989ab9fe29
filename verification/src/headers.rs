//! A multimap of header names to values, the header model the request and
//! response types share.
//!
//! Names are compared exactly; the library itself only inserts lower-case
//! names, as the wire format it models normalizes names to lower case.

use vstd::prelude::*;

verus! {

/// One header entry: a name and a value.
pub type HeaderEntry = (Seq<char>, Seq<char>);

/// Whether some entry with the given name is present.
pub open spec fn spec_has_header(s: Seq<HeaderEntry>, name: Seq<char>) -> bool {
    exists|i: int| 0 <= i < s.len() && s[i].0 == name
}

/// The value of the first entry with the given name, if any.
pub open spec fn spec_get_header(s: Seq<HeaderEntry>, name: Seq<char>) -> Option<Seq<char>>
    decreases s.len(),
{
    if s.len() == 0 {
        None
    } else if s[0].0 == name {
        Some(s[0].1)
    } else {
        spec_get_header(s.drop_first(), name)
    }
}

/// The entries left after dropping every entry with the given name.
pub open spec fn spec_remove_header(s: Seq<HeaderEntry>, name: Seq<char>) -> Seq<HeaderEntry>
    decreases s.len(),
{
    if s.len() == 0 {
        Seq::empty()
    } else {
        let rest = spec_remove_header(s.drop_first(), name);
        if s[0].0 == name {
            rest
        } else {
            seq![s[0]] + rest
        }
    }
}

/// The entries after a replacing insert: every old entry with the name is
/// dropped, and the new one stands at the end.
pub open spec fn spec_insert_header(
    s: Seq<HeaderEntry>,
    name: Seq<char>,
    value: Seq<char>,
) -> Seq<HeaderEntry> {
    spec_remove_header(s, name).push((name, value))
}

proof fn lemma_get_header_skip(s: Seq<HeaderEntry>, name: Seq<char>, i: int)
    requires
        0 <= i < s.len(),
        s[i].0 != name,
        spec_get_header(s, name) == spec_get_header(s.skip(i), name),
    ensures
        spec_get_header(s, name) == spec_get_header(s.skip(i + 1), name),
{
    assert(s.skip(i).len() > 0);
    assert(s.skip(i)[0] == s[i]);
    assert(s.skip(i).drop_first() =~= s.skip(i + 1));
}

/// An ordered collection of header entries.
#[derive(Debug)]
pub struct HeaderMap {
    pub entries: Vec<(String, String)>,
}

impl View for HeaderMap {
    type V = Seq<HeaderEntry>;

    open spec fn view(&self) -> Seq<HeaderEntry> {
        Seq::new(self.entries@.len(), |i: int| (self.entries@[i].0@, self.entries@[i].1@))
    }
}

impl Clone for HeaderMap {
    fn clone(&self) -> (r: Self)
        ensures
            r@ == self@,
    {
        let mut entries: Vec<(String, String)> = Vec::new();
        let mut i: usize = 0;
        while i < self.entries.len()
            invariant
                0 <= i <= self.entries.len(),
                entries@.len() == i,
                forall|j: int|
                    0 <= j < i ==> entries@[j].0@ == self@[j].0 && entries@[j].1@ == self@[j].1,
            decreases self.entries.len() - i,
        {
            entries.push((self.entries[i].0.clone(), self.entries[i].1.clone()));
            i = i + 1;
        }
        let r = HeaderMap { entries };
        proof {
            assert(r@ =~= self@);
        }
        r
    }
}

impl HeaderMap {
    /// An empty header map.
    pub fn new() -> (r: Self)
        ensures
            r@ == Seq::<HeaderEntry>::empty(),
    {
        let r = HeaderMap { entries: Vec::new() };
        proof {
            assert(r@ =~= Seq::<HeaderEntry>::empty());
        }
        r
    }

    /// The number of entries.
    pub fn len(&self) -> (r: usize)
        ensures
            r == self@.len(),
    {
        self.entries.len()
    }

    /// Whether an entry with the given name is present.
    pub fn contains_key(&self, name: &String) -> (r: bool)
        ensures
            r == spec_has_header(self@, name@),
    {
        let mut i: usize = 0;
        while i < self.entries.len()
            invariant
                0 <= i <= self.entries.len(),
                forall|j: int| 0 <= j < i ==> self@[j].0 != name@,
            decreases self.entries.len() - i,
        {
            if self.entries[i].0 == *name {
                assert(self@[i as int].0 == name@);
                return true;
            }
            i = i + 1;
        }
        false
    }

    /// The value of the first entry with the given name.
    pub fn get(&self, name: &String) -> (r: Option<&String>)
        ensures
            match r {
                Some(v) => spec_get_header(self@, name@) == Some(v@),
                None => spec_get_header(self@, name@) is None,
            },
    {
        let mut i: usize = 0;
        proof {
            assert(self@.skip(0) =~= self@);
        }
        while i < self.entries.len()
            invariant
                0 <= i <= self.entries.len(),
                spec_get_header(self@, name@) == spec_get_header(self@.skip(i as int), name@),
            decreases self.entries.len() - i,
        {
            if self.entries[i].0 == *name {
                assert(self@.skip(i as int)[0] == self@[i as int]);
                return Some(&self.entries[i].1);
            }
            proof {
                lemma_get_header_skip(self@, name@, i as int);
            }
            i = i + 1;
        }
        proof {
            assert(self@.skip(self@.len() as int) =~= Seq::<HeaderEntry>::empty());
        }
        None
    }

    /// Appends an entry, keeping any entries that share the name.
    pub fn append(&mut self, name: String, value: String)
        ensures
            final(self)@ == old(self)@.push((name@, value@)),
    {
        let ghost before = self@;
        let ghost n = name@;
        let ghost v = value@;
        self.entries.push((name, value));
        proof {
            assert(self@ =~= before.push((n, v)));
        }
    }

    /// Replaces every entry with the given name by the single new entry.
    pub fn insert(&mut self, name: String, value: String)
        ensures
            final(self)@ == spec_insert_header(old(self)@, name@, value@),
    {
        let ghost before = self@;
        let ghost n = name@;
        let mut kept: Vec<(String, String)> = Vec::new();
        let mut i: usize = 0;
        proof {
            assert(before.skip(0) =~= before);
            assert(Seq::new(kept@.len(), |k: int| (kept@[k].0@, kept@[k].1@)) =~= Seq::<
                HeaderEntry,
            >::empty());
        }
        while i < self.entries.len()
            invariant
                0 <= i <= self.entries.len(),
                before == self@,
                n == name@,
                spec_remove_header(before, n) == Seq::new(
                    kept@.len(),
                    |k: int| (kept@[k].0@, kept@[k].1@),
                ) + spec_remove_header(before.skip(i as int), n),
            decreases self.entries.len() - i,
        {
            let ghost entry = before[i as int];
            let ghost kept_before = Seq::new(kept@.len(), |k: int| (kept@[k].0@, kept@[k].1@));
            proof {
                assert(entry == (self.entries@[i as int].0@, self.entries@[i as int].1@));
                assert(before.skip(i as int)[0] == entry);
                assert(before.skip(i as int).drop_first() =~= before.skip(i as int + 1));
            }
            let same: bool = self.entries[i].0 == name;
            proof {
                assert(same == (self.entries@[i as int].0@ == name@));
            }
            if !same {
                proof {
                    assert(entry.0 != n);
                    assert(spec_remove_header(before.skip(i as int), n) == seq![entry]
                        + spec_remove_header(before.skip(i as int + 1), n));
                }
                kept.push((self.entries[i].0.clone(), self.entries[i].1.clone()));
                proof {
                    assert(Seq::new(kept@.len(), |k: int| (kept@[k].0@, kept@[k].1@)) =~= kept_before.push(entry));
                    assert(kept_before + (seq![entry] + spec_remove_header(
                        before.skip(i as int + 1),
                        n,
                    )) =~= kept_before.push(entry) + spec_remove_header(
                        before.skip(i as int + 1),
                        n,
                    ));
                }
            } else {
                proof {
                    assert(entry.0 == n);
                    assert(spec_remove_header(before.skip(i as int), n) == spec_remove_header(
                        before.skip(i as int + 1),
                        n,
                    ));
                }
            }
            i = i + 1;
        }
        proof {
            assert(before.skip(before.len() as int) =~= Seq::<HeaderEntry>::empty());
        }
        let ghost kept_view = Seq::new(kept@.len(), |k: int| (kept@[k].0@, kept@[k].1@));
        let ghost v = value@;
        kept.push((name, value));
        self.entries = kept;
        proof {
            assert(spec_remove_header(before, n) + Seq::<HeaderEntry>::empty() =~= spec_remove_header(before, n));
            assert(self@ =~= kept_view.push((n, v)));
        }
    }
}


/// Looking a name up after appending an entry: the appended entry is
/// found exactly when no earlier entry carries the name.
pub proof fn lemma_get_header_push(s: Seq<HeaderEntry>, name: Seq<char>, value: Seq<char>)
    ensures
        spec_has_header(s.push((name, value)), name),
        !spec_has_header(s, name) ==> spec_get_header(s.push((name, value)), name) == Some(value),
        spec_has_header(s, name) ==> spec_get_header(s.push((name, value)), name)
            == spec_get_header(s, name),
    decreases s.len(),
{
    let t = s.push((name, value));
    assert(t[s.len() as int].0 == name);
    if s.len() == 0 {
        assert(t[0] == (name, value));
    } else {
        assert(t[0] == s[0]);
        if s[0].0 == name {
            assert(spec_get_header(t, name) == Some(s[0].1));
        } else {
            lemma_get_header_push(s.drop_first(), name, value);
            assert(t.drop_first() =~= s.drop_first().push((name, value)));
            if spec_has_header(s, name) {
                let i = choose|i: int| 0 <= i < s.len() && s[i].0 == name;
                assert(i > 0);
                assert(s.drop_first()[i - 1].0 == name);
                assert(spec_has_header(s.drop_first(), name));
            }
        }
    }
}

/// Appending an entry under one name leaves lookups of another unchanged.
pub proof fn lemma_get_header_push_other(
    s: Seq<HeaderEntry>,
    name: Seq<char>,
    value: Seq<char>,
    other: Seq<char>,
)
    requires
        other != name,
    ensures
        spec_has_header(s.push((name, value)), other) == spec_has_header(s, other),
        spec_get_header(s.push((name, value)), other) == spec_get_header(s, other),
    decreases s.len(),
{
    let t = s.push((name, value));
    if s.len() == 0 {
        assert(t[0] == (name, value));
        assert(!spec_has_header(s, other));
        assert(t.drop_first() =~= Seq::<HeaderEntry>::empty());
        assert(spec_get_header(Seq::<HeaderEntry>::empty(), other) is None);
        assert(spec_get_header(t, other) is None);
        if spec_has_header(t, other) {
            let i = choose|i: int| 0 <= i < t.len() && t[i].0 == other;
            assert(i == 0);
            assert(false);
        }
    } else {
        lemma_get_header_push_other(s.drop_first(), name, value, other);
        assert(t.drop_first() =~= s.drop_first().push((name, value)));
        assert(t[0] == s[0]);
        if spec_has_header(t, other) {
            let i = choose|i: int| 0 <= i < t.len() && t[i].0 == other;
            if i == 0 {
                assert(s[0].0 == other);
            } else {
                assert(t.drop_first()[i - 1].0 == other);
            }
            assert(spec_has_header(s, other));
        }
        if spec_has_header(s, other) {
            let i = choose|i: int| 0 <= i < s.len() && s[i].0 == other;
            assert(t[i].0 == other);
        }
    }
}
} // verus!
