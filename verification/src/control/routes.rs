//! Desired output routing: which output device each sink should feed, so a
//! device that comes back can be re-linked to the sink that used it.
//!
//! The table is an ordered map from sink name to device node name, kept as a
//! vector sorted by sink name with no name twice.

use crate::control::nodes::{chain_for_sink, chain_for_sink_spec};
use crate::control::sinks::{has_name, names_of};
use crate::proto::EqChainId;
use crate::text::{
    chars_le, lemma_chars_le_antisymmetric, lemma_chars_le_total, lemma_chars_le_transitive,
    str_eq, str_le,
};
use vstd::prelude::*;
use vstd::string::*;

verus! {

/// Strictly before, in the order `str` sorts by.
pub open spec fn name_lt(a: Seq<char>, b: Seq<char>) -> bool {
    chars_le(a, b) && a != b
}

pub open spec fn entry_view(e: (String, String)) -> (Seq<char>, Seq<char>) {
    (e.0@, e.1@)
}

pub open spec fn entries_view(v: Seq<(String, String)>) -> Seq<(Seq<char>, Seq<char>)> {
    v.map_values(|e: (String, String)| entry_view(e))
}

/// Sink names in strictly increasing order, so none occurs twice.
pub open spec fn keys_sorted(s: Seq<(Seq<char>, Seq<char>)>) -> bool {
    forall|i: int, j: int| 0 <= i < j < s.len() ==> name_lt(#[trigger] s[i].0, #[trigger] s[j].0)
}

/// The device recorded for `sink`: the first entry under that name.
pub open spec fn lookup(s: Seq<(Seq<char>, Seq<char>)>, sink: Seq<char>) -> Option<Seq<char>>
    decreases s.len(),
{
    if s.len() == 0 {
        None
    } else if s[0].0 == sink {
        Some(s[0].1)
    } else {
        lookup(s.drop_first(), sink)
    }
}

/// The entries read as a map from sink name to device name.
pub open spec fn as_map(s: Seq<(Seq<char>, Seq<char>)>) -> Map<Seq<char>, Seq<char>> {
    Map::new(|k: Seq<char>| lookup(s, k) is Some, |k: Seq<char>| lookup(s, k)->0)
}

proof fn lemma_lookup_at(s: Seq<(Seq<char>, Seq<char>)>, k: Seq<char>, i: int)
    requires
        0 <= i < s.len(),
        s[i].0 == k,
        forall|j: int| 0 <= j < i ==> s[j].0 != k,
    ensures
        lookup(s, k) == Some(s[i].1),
    decreases i,
{
    if i > 0 {
        assert(s[0].0 != k);
        assert forall|j: int| 0 <= j < i - 1 implies s.drop_first()[j].0 != k by {
            assert(s.drop_first()[j] == s[j + 1]);
        }
        lemma_lookup_at(s.drop_first(), k, i - 1);
    }
}

proof fn lemma_lookup_absent(s: Seq<(Seq<char>, Seq<char>)>, k: Seq<char>)
    requires
        forall|j: int| 0 <= j < s.len() ==> s[j].0 != k,
    ensures
        lookup(s, k) is None,
    decreases s.len(),
{
    if s.len() > 0 {
        assert(s[0].0 != k);
        assert forall|j: int| 0 <= j < s.len() - 1 implies s.drop_first()[j].0 != k by {
            assert(s.drop_first()[j] == s[j + 1]);
        }
        lemma_lookup_absent(s.drop_first(), k);
    }
}

/// In a sorted table the entry under a name is the one the lookup finds.
proof fn lemma_lookup_sorted(s: Seq<(Seq<char>, Seq<char>)>, k: Seq<char>, i: int)
    requires
        keys_sorted(s),
        0 <= i < s.len(),
        s[i].0 == k,
    ensures
        lookup(s, k) == Some(s[i].1),
{
    assert forall|j: int| 0 <= j < i implies s[j].0 != k by {
        assert(name_lt(s[j].0, s[i].0));
    }
    lemma_lookup_at(s, k, i);
}

/// Sink name -> output device node name, ordered by sink name.
#[derive(Debug, PartialEq, Eq)]
pub struct Routes {
    entries: Vec<(String, String)>,
}

impl Routes {
    #[verifier::type_invariant]
    spec fn sorted(self) -> bool {
        keys_sorted(entries_view(self.entries@))
    }

    /// The entries in sink-name order.
    pub closed spec fn pairs(&self) -> Seq<(Seq<char>, Seq<char>)> {
        entries_view(self.entries@)
    }

    pub open spec fn view(&self) -> Map<Seq<char>, Seq<char>> {
        as_map(self.pairs())
    }

    /// An empty table.
    pub fn new() -> (r: Routes)
        ensures
            r.pairs() == Seq::<(Seq<char>, Seq<char>)>::empty(),
            r@ == Map::<Seq<char>, Seq<char>>::empty(),
    {
        let r = Routes { entries: Vec::new() };
        assert(r.pairs() =~= Seq::<(Seq<char>, Seq<char>)>::empty());
        assert(r@ =~= Map::<Seq<char>, Seq<char>>::empty());
        r
    }

    /// The entries, sorted by sink name with no name twice.
    pub fn entries(&self) -> (r: &Vec<(String, String)>)
        ensures
            entries_view(r@) == self.pairs(),
            keys_sorted(self.pairs()),
    {
        proof {
            use_type_invariant(self);
        }
        &self.entries
    }

    /// The device recorded for `sink`.
    pub fn get(&self, sink: &str) -> (r: Option<&String>)
        ensures
            match r {
                Some(d) => self@.contains_key(sink@) && self@[sink@] == d@,
                None => !self@.contains_key(sink@),
            },
    {
        let ghost s = self.pairs();
        let n = self.entries.len();
        let mut i: usize = 0;
        while i < n
            invariant
                n == s.len(),
                s == entries_view(self.entries@),
                i <= n,
                forall|j: int| 0 <= j < i ==> s[j].0 != sink@,
            decreases n - i,
        {
            let e = &self.entries[i];
            if str_eq(e.0.as_str(), sink) {
                proof {
                    assert(s[i as int] == entry_view(self.entries@[i as int]));
                    lemma_lookup_at(s, sink@, i as int);
                }
                return Some(&e.1);
            }
            assert(s[i as int] == entry_view(self.entries@[i as int]));
            i = i + 1;
        }
        proof {
            lemma_lookup_absent(s, sink@);
        }
        None
    }

    /// The position of the first entry whose name does not sort before
    /// `sink`, and whether that entry is `sink` itself.
    fn position(&self, sink: &str) -> (r: (usize, bool))
        ensures
            r.0 <= self.pairs().len(),
            forall|j: int| 0 <= j < r.0 ==> name_lt(#[trigger] self.pairs()[j].0, sink@),
            r.0 < self.pairs().len() ==> chars_le(sink@, self.pairs()[r.0 as int].0),
            r.1 <==> (r.0 < self.pairs().len() && self.pairs()[r.0 as int].0 == sink@),
    {
        let ghost s = self.pairs();
        let n = self.entries.len();
        let mut i: usize = 0;
        while i < n
            invariant
                n == s.len(),
                s == entries_view(self.entries@),
                i <= n,
                forall|j: int| 0 <= j < i ==> name_lt(#[trigger] s[j].0, sink@),
            decreases n - i,
        {
            let key = self.entries[i].0.as_str();
            assert(s[i as int].0 == key@);
            if str_le(sink, key) {
                let same = str_eq(key, sink);
                return (i, same);
            }
            proof {
                lemma_chars_le_total(sink@, key@);
            }
            i = i + 1;
        }
        (i, false)
    }

    /// Records `device` as the target of `sink`, replacing any earlier one.
    pub fn set(&mut self, sink: &str, device: &str)
        ensures
            final(self)@ == old(self)@.insert(sink@, device@),
    {
        proof {
            use_type_invariant(&*self);
        }
        let (i, found) = self.position(sink);
        let ghost s = self.pairs();
        let mut v: Vec<(String, String)> = Vec::new();
        std::mem::swap(&mut v, &mut self.entries);
        assert(entries_view(v@) == s);
        let entry = (String::from_str(sink), String::from_str(device));
        let ghost e = entry_view(entry);
        if found {
            v.remove(i);
            v.insert(i, entry);
            let ghost t = s.update(i as int, e);
            assert(entries_view(v@) =~= t);
            assert(keys_sorted(t)) by {
                assert forall|p: int, q: int| 0 <= p < q < t.len() implies name_lt(
                    #[trigger] t[p].0,
                    #[trigger] t[q].0,
                ) by {
                    assert(name_lt(s[p].0, s[q].0));
                }
            }
            assert(as_map(t) =~= as_map(s).insert(sink@, device@)) by {
                assert forall|k: Seq<char>| #[trigger] lookup(t, k) == (if k == sink@ {
                    Some(device@)
                } else {
                    lookup(s, k)
                }) by {
                    Self::lookup_after_update(s, t, i as int, k);
                }
            }
        } else {
            v.insert(i, entry);
            let ghost t = s.insert(i as int, e);
            assert(entries_view(v@) =~= t);
            assert forall|j: int| i <= j < s.len() implies name_lt(sink@, #[trigger] s[j].0) by {
                if j > i {
                    assert(name_lt(s[i as int].0, s[j].0));
                    lemma_chars_le_transitive(sink@, s[i as int].0, s[j].0);
                    if sink@ == s[j].0 {
                        lemma_chars_le_antisymmetric(s[i as int].0, s[j].0);
                    }
                }
            }
            assert(keys_sorted(t)) by {
                assert forall|p: int, q: int| 0 <= p < q < t.len() implies name_lt(
                    #[trigger] t[p].0,
                    #[trigger] t[q].0,
                ) by {
                    if q < i {
                        assert(name_lt(s[p].0, s[q].0));
                    } else if q == i {
                        assert(name_lt(s[p].0, sink@));
                    } else if p < i {
                        assert(name_lt(s[p].0, s[q - 1].0));
                    } else if p == i {
                        assert(name_lt(sink@, s[q - 1].0));
                    } else {
                        assert(name_lt(s[p - 1].0, s[q - 1].0));
                    }
                }
            }
            assert(as_map(t) =~= as_map(s).insert(sink@, device@)) by {
                assert forall|k: Seq<char>| #[trigger] lookup(t, k) == (if k == sink@ {
                    Some(device@)
                } else {
                    lookup(s, k)
                }) by {
                    Self::lookup_after_insert(s, t, i as int, k);
                }
            }
        }
        self.entries = v;
    }

    proof fn lookup_after_update(
        s: Seq<(Seq<char>, Seq<char>)>,
        t: Seq<(Seq<char>, Seq<char>)>,
        i: int,
        k: Seq<char>,
    )
        requires
            keys_sorted(s),
            keys_sorted(t),
            0 <= i < s.len(),
            t.len() == s.len(),
            t[i].0 == s[i].0,
            forall|j: int| 0 <= j < s.len() && j != i ==> t[j] == s[j],
        ensures
            lookup(t, k) == (if k == s[i].0 {
                Some(t[i].1)
            } else {
                lookup(s, k)
            }),
    {
        if k == s[i].0 {
            lemma_lookup_sorted(t, k, i);
        } else if exists|j: int| 0 <= j < s.len() && s[j].0 == k {
            let j = choose|j: int| 0 <= j < s.len() && s[j].0 == k;
            lemma_lookup_sorted(s, k, j);
            lemma_lookup_sorted(t, k, j);
        } else {
            lemma_lookup_absent(s, k);
            assert forall|j: int| 0 <= j < t.len() implies t[j].0 != k by {
                if j != i {
                    assert(t[j] == s[j]);
                }
            }
            lemma_lookup_absent(t, k);
        }
    }

    proof fn lookup_after_insert(
        s: Seq<(Seq<char>, Seq<char>)>,
        t: Seq<(Seq<char>, Seq<char>)>,
        i: int,
        k: Seq<char>,
    )
        requires
            keys_sorted(s),
            keys_sorted(t),
            0 <= i <= s.len(),
            t == s.insert(i, t[i]),
        ensures
            lookup(t, k) == (if k == t[i].0 {
                Some(t[i].1)
            } else {
                lookup(s, k)
            }),
    {
        if k == t[i].0 {
            lemma_lookup_sorted(t, k, i);
        } else if exists|j: int| 0 <= j < s.len() && s[j].0 == k {
            let j = choose|j: int| 0 <= j < s.len() && s[j].0 == k;
            lemma_lookup_sorted(s, k, j);
            if j < i {
                assert(t[j] == s[j]);
                lemma_lookup_sorted(t, k, j);
            } else {
                assert(t[j + 1] == s[j]);
                lemma_lookup_sorted(t, k, j + 1);
            }
        } else {
            lemma_lookup_absent(s, k);
            assert forall|j: int| 0 <= j < t.len() implies t[j].0 != k by {
                if j < i {
                    assert(t[j] == s[j]);
                } else if j > i {
                    assert(t[j] == s[j - 1]);
                }
            }
            lemma_lookup_absent(t, k);
        }
    }

    proof fn lookup_after_remove(
        s: Seq<(Seq<char>, Seq<char>)>,
        i: int,
        k: Seq<char>,
    )
        requires
            keys_sorted(s),
            0 <= i < s.len(),
        ensures
            keys_sorted(s.remove(i)),
            lookup(s.remove(i), k) == (if k == s[i].0 {
                None
            } else {
                lookup(s, k)
            }),
    {
        let t = s.remove(i);
        assert forall|p: int, q: int| 0 <= p < q < t.len() implies name_lt(
            #[trigger] t[p].0,
            #[trigger] t[q].0,
        ) by {
            if q < i {
                assert(name_lt(s[p].0, s[q].0));
            } else if p < i {
                assert(name_lt(s[p].0, s[q + 1].0));
            } else {
                assert(name_lt(s[p + 1].0, s[q + 1].0));
            }
        }
        if k == s[i].0 {
            assert forall|j: int| 0 <= j < t.len() implies t[j].0 != k by {
                if j < i {
                    assert(name_lt(s[j].0, s[i].0));
                } else {
                    assert(name_lt(s[i].0, s[j + 1].0));
                }
            }
            lemma_lookup_absent(t, k);
        } else if exists|j: int| 0 <= j < s.len() && s[j].0 == k {
            let j = choose|j: int| 0 <= j < s.len() && s[j].0 == k;
            lemma_lookup_sorted(s, k, j);
            if j < i {
                lemma_lookup_sorted(t, k, j);
            } else {
                assert(t[j - 1] == s[j]);
                lemma_lookup_sorted(t, k, j - 1);
            }
        } else {
            lemma_lookup_absent(s, k);
            assert forall|j: int| 0 <= j < t.len() implies t[j].0 != k by {
                if j < i {
                    assert(t[j] == s[j]);
                } else {
                    assert(t[j] == s[j + 1]);
                }
            }
            lemma_lookup_absent(t, k);
        }
    }

    /// Forgets the target of `sink`, if it had one.
    pub fn remove(&mut self, sink: &str)
        ensures
            final(self)@ == old(self)@.remove(sink@),
    {
        proof {
            use_type_invariant(&*self);
        }
        let (i, found) = self.position(sink);
        let ghost s = self.pairs();
        if !found {
            proof {
                assert forall|j: int| 0 <= j < s.len() implies s[j].0 != sink@ by {
                    if j > i {
                        assert(name_lt(s[i as int].0, s[j].0));
                        if s[j].0 == sink@ {
                            lemma_chars_le_antisymmetric(s[i as int].0, s[j].0);
                        }
                    }
                }
                lemma_lookup_absent(s, sink@);
                assert(self@ =~= self@.remove(sink@));
            }
            return;
        }
        let mut v: Vec<(String, String)> = Vec::new();
        std::mem::swap(&mut v, &mut self.entries);
        assert(entries_view(v@) == s);
        v.remove(i);
        let ghost t = s.remove(i as int);
        assert(entries_view(v@) =~= t);
        proof {
            Self::lookup_after_remove(s, i as int, sink@);
        }
        assert(as_map(t) =~= as_map(s).remove(sink@)) by {
            assert forall|k: Seq<char>| #[trigger] lookup(t, k) == (if k == sink@ {
                None
            } else {
                lookup(s, k)
            }) by {
                Self::lookup_after_remove(s, i as int, k);
            }
        }
        self.entries = v;
    }
}

impl Default for Routes {
    fn default() -> (r: Routes)
        ensures
            r@ == Map::<Seq<char>, Seq<char>>::empty(),
    {
        Routes::new()
    }
}

/// Whether a recorded route must be put back: only when both ends are in
/// the graph and the sink feeds nothing at all. A sink that points
/// somewhere else was changed on purpose, and forcing it back would fight
/// the user.
pub fn should_restore(present: &Vec<String>, sink: &str, device: &str, has_target: bool) -> (r:
    bool)
    ensures
        r == (names_of(present@).contains(sink@) && names_of(present@).contains(device@)
            && !has_target),
{
    has_name(present, sink) && has_name(present, device) && !has_target
}

/// How a route is put back: through the sink's EQ chain while the EQ is
/// active and the sink has one, else by linking the sink straight to the
/// device (`None`).
pub fn restore_via(sink: &str, eq_active: bool) -> (r: Option<EqChainId>)
    ensures
        r == (if eq_active {
            chain_for_sink_spec(sink@)
        } else {
            None
        }),
{
    if eq_active {
        chain_for_sink(sink)
    } else {
        None
    }
}

/// A lookup gives back what the last write to that sink recorded, and a
/// write to one sink leaves every other sink's target as it was.
pub proof fn lemma_get_after_set(
    before: Routes,
    after: Routes,
    sink: Seq<char>,
    device: Seq<char>,
    other: Seq<char>,
)
    requires
        after@ == before@.insert(sink, device),
    ensures
        after@.contains_key(sink),
        after@[sink] == device,
        other != sink ==> (after@.contains_key(other) <==> before@.contains_key(other)),
        other != sink && before@.contains_key(other) ==> after@[other] == before@[other],
{
}

/// After a removal the sink has no target, and every other sink keeps its
/// own.
pub proof fn lemma_get_after_remove(before: Routes, after: Routes, sink: Seq<char>, other: Seq<char>)
    requires
        after@ == before@.remove(sink),
    ensures
        !after@.contains_key(sink),
        other != sink ==> (after@.contains_key(other) <==> before@.contains_key(other)),
        other != sink && before@.contains_key(other) ==> after@[other] == before@[other],
{
}

} // verus!
