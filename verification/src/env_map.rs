//! Maps keyed by text, and the environment map of variable names to values.

use vstd::prelude::*;

use crate::text::{eq_ignore_ascii_case, text_eq, text_eq_ignore_ascii_case};

verus! {

/// The map that a sequence of entries gives when they are inserted in order:
/// where a key occurs twice, the later entry wins.
pub open spec fn entries_view<V: View>(s: Seq<(String, V)>) -> Map<Seq<char>, V::V>
    decreases s.len(),
{
    if s.len() == 0 {
        Map::empty()
    } else {
        entries_view(s.drop_last()).insert(s.last().0@, s.last().1@)
    }
}

/// No key occurs twice among the entries.
pub open spec fn keys_unique<V>(s: Seq<(String, V)>) -> bool {
    forall|i: int, j: int| 0 <= i < j < s.len() ==> #[trigger] s[i].0@ != #[trigger] s[j].0@
}

/// The keys of the map are the keys of the entries, and with unique keys each
/// entry's value is the value of its key.
pub proof fn lemma_entries_view<V: View>(s: Seq<(String, V)>)
    ensures
        forall|k: Seq<char>| #[trigger]
            entries_view(s).dom().contains(k) <==> exists|i: int| 0 <= i < s.len() && s[i].0@ == k,
        keys_unique(s) ==> forall|i: int|
            0 <= i < s.len() ==> #[trigger] entries_view(s)[s[i].0@] == s[i].1@,
    decreases s.len(),
{
    if s.len() > 0 {
        let t = s.drop_last();
        lemma_entries_view(t);
        assert forall|k: Seq<char>| #[trigger]
            entries_view(s).dom().contains(k) <==> exists|i: int| 0 <= i < s.len() && s[i].0@ == k by {
            assert(entries_view(s) == entries_view(t).insert(s.last().0@, s.last().1@));
            assert(entries_view(t).dom().contains(k) <==> exists|i: int|
                0 <= i < t.len() && t[i].0@ == k);
            if k == s.last().0@ {
                assert(s[s.len() - 1].0@ == k);
            }
            if entries_view(s).dom().contains(k) && k != s.last().0@ {
                let i = choose|i: int| 0 <= i < t.len() && t[i].0@ == k;
                assert(s[i] == t[i]);
            }
            if exists|i: int| 0 <= i < s.len() && s[i].0@ == k {
                let i = choose|i: int| 0 <= i < s.len() && s[i].0@ == k;
                if i < t.len() {
                    assert(s[i] == t[i]);
                }
            }
        }
        if keys_unique(s) {
            assert(keys_unique(t)) by {
                assert forall|i: int, j: int| 0 <= i < j < t.len() implies #[trigger] t[i].0@
                    != #[trigger] t[j].0@ by {
                    assert(t[i] == s[i] && t[j] == s[j]);
                }
            }
            assert forall|i: int| 0 <= i < s.len() implies #[trigger] entries_view(s)[s[i].0@]
                == s[i].1@ by {
                assert(entries_view(s) == entries_view(t).insert(s.last().0@, s.last().1@));
                if i < t.len() {
                    assert(t[i] == s[i]);
                    assert(s[i].0@ != s[s.len() - 1].0@);
                    assert(entries_view(t)[t[i].0@] == t[i].1@);
                }
            }
        }
    }
}

/// Two sequences of entries with unique keys that hold the same keys and
/// values give the same map.
proof fn lemma_entries_view_ext<V: View>(s: Seq<(String, V)>, m: Map<Seq<char>, V::V>)
    requires
        keys_unique(s),
        forall|k: Seq<char>| #[trigger]
            m.dom().contains(k) <==> exists|i: int| 0 <= i < s.len() && s[i].0@ == k,
        forall|i: int| 0 <= i < s.len() ==> #[trigger] m[s[i].0@] == s[i].1@,
    ensures
        entries_view(s) == m,
{
    lemma_entries_view(s);
    assert forall|k: Seq<char>| #[trigger] entries_view(s).dom().contains(k) implies entries_view(
        s,
    )[k] == m[k] by {
        let i = choose|i: int| 0 <= i < s.len() && s[i].0@ == k;
    }
    assert(entries_view(s) =~= m);
}

/// A map keyed by text, kept as its entries in the order in which their keys
/// first came.
#[derive(Debug)]
pub struct KeyedMap<V> {
    entries: Vec<(String, V)>,
}

impl<V: View> View for KeyedMap<V> {
    type V = Map<Seq<char>, V::V>;

    closed spec fn view(&self) -> Map<Seq<char>, V::V> {
        entries_view(self.entries@)
    }
}

impl<V> KeyedMap<V> {
    #[verifier::type_invariant]
    closed spec fn unique(self) -> bool {
        keys_unique(self.entries@)
    }
}

impl<V: View> KeyedMap<V> {
    /// The empty map.
    pub fn new() -> (m: Self)
        ensures
            m@ == Map::<Seq<char>, V::V>::empty(),
    {
        KeyedMap { entries: Vec::new() }
    }

    /// The entries, each key once, in the order in which the keys first came.
    pub fn as_entries(&self) -> (entries: &Vec<(String, V)>)
        ensures
            entries_view(entries@) == self@,
            keys_unique(entries@),
    {
        proof {
            use_type_invariant(self);
        }
        &self.entries
    }

    /// The value of `key`, if the map holds it.
    pub fn get(&self, key: &str) -> (r: Option<&V>)
        ensures
            match r {
                Some(v) => self@.contains_key(key@) && v@ == self@[key@],
                None => !self@.contains_key(key@),
            },
    {
        proof {
            use_type_invariant(self);
            lemma_entries_view(self.entries@);
        }
        let mut i: usize = 0;
        while i < self.entries.len()
            invariant
                i <= self.entries.len(),
                keys_unique(self.entries@),
                forall|j: int| 0 <= j < i ==> (#[trigger] self.entries@[j]).0@ != key@,
            decreases self.entries.len() - i,
        {
            if text_eq(self.entries[i].0.as_str(), key) {
                assert(self.entries@[i as int].0@ == key@);
                proof {
                    lemma_entries_view(self.entries@);
                }
                assert(entries_view(self.entries@)[self.entries@[i as int].0@]
                    == self.entries@[i as int].1@);
                return Some(&self.entries[i].1);
            }
            i = i + 1;
        }
        None
    }

    /// Sets `key` to `value`, replacing the value that it had.
    pub fn insert(&mut self, key: String, value: V)
        ensures
            final(self)@ == old(self)@.insert(key@, value@),
    {
        proof {
            use_type_invariant(&*self);
            lemma_entries_view(self.entries@);
        }
        let ghost before = self.entries@;
        let ghost target = entries_view(before).insert(key@, value@);
        let mut i: usize = 0;
        while i < self.entries.len()
            invariant
                i <= self.entries.len(),
                self.entries@ == before,
                before == old(self).entries@,
                keys_unique(before),
                target == entries_view(before).insert(key@, value@),
                forall|j: int| 0 <= j < i ==> (#[trigger] before[j]).0@ != key@,
            decreases self.entries.len() - i,
        {
            if text_eq(self.entries[i].0.as_str(), key.as_str()) {
                let ghost after = before.update(i as int, (key, value));
                proof {
                    lemma_entries_view(before);
                    assert forall|a: int, b: int| 0 <= a < b < after.len() implies #[trigger] after[a].0@
                        != #[trigger] after[b].0@ by {
                        assert(before[a].0@ != before[b].0@);
                    }
                    assert forall|k: Seq<char>| #[trigger] target.dom().contains(k) <==> exists|
                        j: int,
                    | 0 <= j < after.len() && after[j].0@ == k by {
                        if target.dom().contains(k) && k != key@ {
                            let j = choose|j: int| 0 <= j < before.len() && before[j].0@ == k;
                            assert(after[j] == before[j]);
                        }
                        if exists|j: int| 0 <= j < after.len() && after[j].0@ == k {
                            let j = choose|j: int| 0 <= j < after.len() && after[j].0@ == k;
                            if j != i {
                                assert(after[j] == before[j]);
                            }
                        }
                        if k == key@ {
                            assert(after[i as int].0@ == k);
                        }
                    }
                    assert forall|j: int| 0 <= j < after.len() implies #[trigger] target[after[j].0@]
                        == after[j].1@ by {
                        if j != i {
                            assert(after[j] == before[j]);
                            assert(before[j].0@ != before[i as int].0@);
                        }
                    }
                    lemma_entries_view_ext(after, target);
                }
                let mut entries: Vec<(String, V)> = Vec::new();
                std::mem::swap(&mut entries, &mut self.entries);
                entries.set(i, (key, value));
                assert(entries@ == after);
                self.entries = entries;
                return;
            }
            i = i + 1;
        }
        proof {
            let after = before.push((key, value));
            assert(after.drop_last() =~= before);
            assert forall|a: int, b: int| 0 <= a < b < after.len() implies #[trigger] after[a].0@
                != #[trigger] after[b].0@ by {
                if b < before.len() {
                    assert(after[a] == before[a] && after[b] == before[b]);
                } else {
                    assert(after[a] == before[a]);
                }
            }
        }
        let mut entries: Vec<(String, V)> = Vec::new();
        std::mem::swap(&mut entries, &mut self.entries);
        entries.push((key, value));
        self.entries = entries;
    }

    /// Inserts the entries in order, so that a later entry wins over an earlier
    /// one and over what the map held.
    pub fn insert_all(&mut self, entries: Vec<(String, V)>)
        ensures
            final(self)@ == old(self)@.union_prefer_right(entries_view(entries@)),
    {
        let ghost base = self@;
        let ghost all = entries@;
        let mut rest = entries;
        assert(all.len() == rest.len());
        let mut i: usize = 0;
        while rest.len() > 0
            invariant
                i + rest@.len() == all.len(),
                all.len() <= usize::MAX,
                rest@ == all.skip(i as int),
                self@ == base.union_prefer_right(entries_view(all.take(i as int))),
            decreases rest.len(),
        {
            let ghost rest_before = rest@;
            let (k, v) = rest.remove(0);
            proof {
                assert(all.take(i + 1).drop_last() =~= all.take(i as int));
                assert(all[i as int] == rest_before[0]);
                assert(rest@ =~= all.skip(i + 1));
                assert(base.union_prefer_right(entries_view(all.take(i + 1))) =~= base.union_prefer_right(
                    entries_view(all.take(i as int)),
                ).insert(k@, v@));
            }
            self.insert(k, v);
            i = i + 1;
        }
        assert(all.take(i as int) =~= all);
    }

    /// The map that the entries give when inserted in order: a later entry
    /// wins over an earlier one with the same key.
    pub fn from_entries(entries: Vec<(String, V)>) -> (m: Self)
        ensures
            m@ == entries_view(entries@),
    {
        let mut m = Self::new();
        m.insert_all(entries);
        assert(Map::<Seq<char>, V::V>::empty().union_prefer_right(entries_view(entries@))
            =~= entries_view(entries@));
        m
    }

    /// The map with every entry of `overrides` put over it.
    pub fn merged_with(self, overrides: Self) -> (m: Self)
        ensures
            m@ == self@.union_prefer_right(overrides@),
    {
        let mut m = self;
        let KeyedMap { entries } = overrides;
        m.insert_all(entries);
        m
    }
}

/// The environment: variable names and their values.
pub type EnvMap = KeyedMap<String>;

/// The value of the variable `key`, if it is set.
pub fn value<'a>(env: &'a EnvMap, key: &str) -> (r: Option<&'a str>)
    ensures
        match r {
            Some(v) => env@.contains_key(key@) && v@ == env@[key@],
            None => !env@.contains_key(key@),
        },
{
    match env.get(key) {
        Some(v) => Some(v.as_str()),
        None => None,
    }
}

/// The texts that count as "on": `1`, `true`, `yes` and `on`, in any ASCII case.
pub open spec fn is_truthy_text(v: Seq<char>) -> bool {
    ||| eq_ignore_ascii_case(v, "1"@)
    ||| eq_ignore_ascii_case(v, "true"@)
    ||| eq_ignore_ascii_case(v, "yes"@)
    ||| eq_ignore_ascii_case(v, "on"@)
}

/// The variable `key` is set to a text that counts as "on".
pub open spec fn is_truthy(env: Map<Seq<char>, Seq<char>>, key: Seq<char>) -> bool {
    env.contains_key(key) && is_truthy_text(env[key])
}

/// Whether the variable `key` is set to `1`, `true`, `yes` or `on`, in any
/// ASCII case.
pub fn truthy(env: &EnvMap, key: &str) -> (r: bool)
    ensures
        r == is_truthy(env@, key@),
{
    match value(env, key) {
        Some(v) => text_eq_ignore_ascii_case(v, "1") || text_eq_ignore_ascii_case(v, "true")
            || text_eq_ignore_ascii_case(v, "yes") || text_eq_ignore_ascii_case(v, "on"),
        None => false,
    }
}

/// The environment `initial` with every variable of `overrides` set over it.
pub fn merge_env(initial: EnvMap, overrides: EnvMap) -> (merged: EnvMap)
    ensures
        merged@ == initial@.union_prefer_right(overrides@),
{
    initial.merged_with(overrides)
}

} // verus!

verus! {

/// Of two entries with one key, the later wins; an entry for another key
/// leaves a key's value as it was.
pub proof fn lemma_later_entry_wins<V: View>(s: Seq<(String, V)>, e: (String, V), key: Seq<char>)
    ensures
        entries_view(s.push(e)).contains_key(e.0@),
        entries_view(s.push(e))[e.0@] == e.1@,
        key != e.0@ ==> entries_view(s.push(e)).contains_key(key) == entries_view(s).contains_key(
            key,
        ),
        key != e.0@ ==> entries_view(s.push(e))[key] == entries_view(s)[key],
{
    assert(s.push(e).drop_last() =~= s);
}

} // verus!

verus! {

/// The value of a key is that of its last entry.
pub proof fn lemma_last_entry_value<V: View>(s: Seq<(String, V)>, i: int)
    requires
        0 <= i < s.len(),
        forall|j: int| i < j < s.len() ==> s[j].0@ != s[i].0@,
    ensures
        entries_view(s).contains_key(s[i].0@),
        entries_view(s)[s[i].0@] == s[i].1@,
    decreases s.len(),
{
    if i < s.len() - 1 {
        let t = s.drop_last();
        assert(t[i] == s[i]);
        assert forall|j: int| i < j < t.len() implies t[j].0@ != t[i].0@ by {
            assert(t[j] == s[j]);
        }
        lemma_last_entry_value(t, i);
        assert(s.last().0@ != s[i].0@) by {
            assert(s[s.len() - 1] == s.last());
        }
    }
}

} // verus!
