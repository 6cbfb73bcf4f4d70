//! A map from text keys to text values that keeps its entries in ascending
//! key order, each key once (what the manifest's header and KV seed maps are).

use crate::text::{
    copy_pairs, lemma_text_lt_irreflexive, lemma_text_lt_total, lemma_text_lt_transitive,
    pairs_view, text_less, text_lt,
};
use vstd::prelude::*;

verus! {

/// The keys ascend strictly: the entries are sorted by key and no key occurs
/// twice.
pub open spec fn keys_ascending(s: Seq<(Seq<char>, Seq<char>)>) -> bool {
    forall|i: int, j: int| 0 <= i < j < s.len() ==> text_lt(#[trigger] s[i].0, #[trigger] s[j].0)
}

/// Entries whose keys ascend hold each key once: two entries at different
/// positions have different keys.
pub proof fn lemma_ascending_keys_distinct(s: Seq<(Seq<char>, Seq<char>)>, i: int, j: int)
    requires
        keys_ascending(s),
        0 <= i < s.len(),
        0 <= j < s.len(),
        i != j,
    ensures
        s[i].0 != s[j].0,
{
    if i < j {
        lemma_text_lt_irreflexive(s[i].0);
        assert(text_lt(s[i].0, s[j].0));
    } else {
        lemma_text_lt_irreflexive(s[j].0);
        assert(text_lt(s[j].0, s[i].0));
    }
}

/// Where the entry `(key, value)` goes in the ascending entries `s`: at the
/// first position `p` whose key does not come before `key`; it replaces the
/// entry there when that entry has the same key, and is inserted there
/// otherwise.
pub open spec fn placed_at(
    s: Seq<(Seq<char>, Seq<char>)>,
    key: Seq<char>,
    value: Seq<char>,
    p: int,
    r: Seq<(Seq<char>, Seq<char>)>,
) -> bool {
    &&& 0 <= p <= s.len()
    &&& forall|i: int| 0 <= i < p ==> text_lt(#[trigger] s[i].0, key)
    &&& p < s.len() ==> !text_lt(s[p].0, key)
    &&& if p < s.len() && s[p].0 == key {
        r == s.update(p, (key, value))
    } else {
        r == s.insert(p, (key, value))
    }
}

/// Text keys to text values, in ascending key order, each key once.
#[derive(Debug)]
pub struct StringMap {
    entries: Vec<(String, String)>,
}

impl View for StringMap {
    type V = Seq<(Seq<char>, Seq<char>)>;

    /// The entries, in ascending key order.
    closed spec fn view(&self) -> Seq<(Seq<char>, Seq<char>)> {
        pairs_view(self.entries@)
    }
}

impl Clone for StringMap {
    fn clone(&self) -> (m: StringMap)
        ensures
            m@ == self@,
    {
        proof {
            use_type_invariant(self);
        }
        StringMap { entries: copy_pairs(&self.entries) }
    }
}

impl StringMap {
    #[verifier::type_invariant]
    spec fn ascending(self) -> bool {
        keys_ascending(pairs_view(self.entries@))
    }

    /// The empty map.
    pub fn new() -> (m: StringMap)
        ensures
            m@ == Seq::<(Seq<char>, Seq<char>)>::empty(),
    {
        let m = StringMap { entries: Vec::new() };
        assert(pairs_view(m.entries@) =~= Seq::<(Seq<char>, Seq<char>)>::empty());
        m
    }

    /// The number of entries.
    pub fn len(&self) -> (n: usize)
        ensures
            n == self@.len(),
    {
        self.entries.len()
    }

    /// The entries, in ascending key order.
    pub fn entries(&self) -> (r: &Vec<(String, String)>)
        ensures
            pairs_view(r@) == self@,
            keys_ascending(self@),
    {
        proof {
            use_type_invariant(self);
        }
        &self.entries
    }

    /// Sets the value of `key`, replacing the value it had.
    pub fn insert(&mut self, key: String, value: String)
        ensures
            keys_ascending(final(self)@),
            exists|p: int| placed_at(old(self)@, key@, value@, p, final(self)@),
    {
        proof {
            use_type_invariant(&*self);
        }
        let ghost s = self@;
        let n = self.entries.len();
        let mut p: usize = 0;
        while p < n && text_less(self.entries[p].0.as_str(), key.as_str())
            invariant
                n == self.entries@.len(),
                s == pairs_view(self.entries@),
                p <= n,
                forall|i: int| 0 <= i < p ==> text_lt(#[trigger] s[i].0, key@),
            decreases n - p,
        {
            assert(s[p as int].0 == self.entries@[p as int].0@);
            p = p + 1;
        }
        assert(p < n ==> s[p as int].0 == self.entries@[p as int].0@);
        assert(p < n ==> !text_lt(s[p as int].0, key@));
        if p < n && self.entries[p].0 == key {
            let ghost k = key@;
            let ghost v = value@;
            let mut entries = Vec::new();
            std::mem::swap(&mut entries, &mut self.entries);
            entries.set(p, (key, value));
            assert(pairs_view(entries@) =~= s.update(p as int, (k, v)));
            self.entries = entries;
            assert(placed_at(s, k, v, p as int, self@));
        } else {
            let ghost k = key@;
            let ghost v = value@;
            let ghost r = s.insert(p as int, (k, v));
            assert forall|i: int, j: int| 0 <= i < j < r.len() implies text_lt(
                #[trigger] r[i].0,
                #[trigger] r[j].0,
            ) by {
                if j < p {
                    assert(r[i] == s[i] && r[j] == s[j]);
                } else if j == p {
                    assert(r[i] == s[i]);
                } else if i == p {
                    assert(r[j] == s[j - 1]);
                    assert(s[p as int].0 != k);
                    lemma_text_lt_total(s[p as int].0, k);
                    if j - 1 > p {
                        lemma_text_lt_transitive(k, s[p as int].0, s[j - 1].0);
                    }
                } else if i < p {
                    assert(r[i] == s[i] && r[j] == s[j - 1]);
                    assert(text_lt(s[i].0, k));
                    if p < s.len() {
                        assert(s[p as int].0 != k);
                        lemma_text_lt_total(s[p as int].0, k);
                        if j - 1 > p {
                            lemma_text_lt_transitive(k, s[p as int].0, s[j - 1].0);
                        }
                        lemma_text_lt_transitive(s[i].0, k, s[j - 1].0);
                    }
                } else {
                    assert(r[i] == s[i - 1] && r[j] == s[j - 1]);
                }
            }
            let mut entries = Vec::new();
            std::mem::swap(&mut entries, &mut self.entries);
            entries.insert(p, (key, value));
            assert(pairs_view(entries@) =~= r);
            self.entries = entries;
            assert(placed_at(s, k, v, p as int, self@));
        }
    }
}

} // verus!
