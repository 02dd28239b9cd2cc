//! Configuration for initializing a transcription backend.

use vstd::prelude::*;

use crate::table::{lemma_lookup_first_distinct, lemma_lookup_first_found, lookup_first};
use crate::text::{chars_eq, chars_of};

verus! {

/// Backend-specific options: a map from option names to values.
///
/// Each name occurs once; setting a name that is present replaces its value.
#[derive(Debug)]
pub struct BackendOptions {
    entries: Vec<(String, String)>,
}

/// The character views of a list of name/value pairs.
pub open spec fn entries_view(e: Seq<(String, String)>) -> Seq<(Seq<char>, Seq<char>)> {
    e.map_values(|p: (String, String)| (p.0@, p.1@))
}

/// Whether no name occurs twice.
pub open spec fn names_distinct(t: Seq<(Seq<char>, Seq<char>)>) -> bool {
    forall|a: int, b: int| 0 <= a < b < t.len() ==> (#[trigger] t[a]).0 != (#[trigger] t[b]).0
}

impl BackendOptions {
    /// The name/value pairs, in the order the names were first set.
    pub closed spec fn pairs(&self) -> Seq<(Seq<char>, Seq<char>)> {
        entries_view(self.entries@)
    }

    #[verifier::type_invariant]
    closed spec fn wf(&self) -> bool {
        names_distinct(self.pairs())
    }

    /// The value set for `name`, if any.
    pub open spec fn value_of(&self, name: Seq<char>) -> Option<Seq<char>> {
        lookup_first(self.pairs(), name)
    }

    /// The number of names set.
    pub closed spec fn count(&self) -> nat {
        self.entries@.len()
    }

    /// No options.
    pub fn new() -> (r: Self)
        ensures
            forall|name: Seq<char>| (#[trigger] r.value_of(name)) is None,
            r.count() == 0,
    {
        let r = BackendOptions { entries: Vec::new() };
        assert(r.pairs() =~= Seq::<(Seq<char>, Seq<char>)>::empty());
        r
    }

    fn find(&self, name: &[char]) -> (r: Option<usize>)
        ensures
            match r {
                Some(i) => i < self.pairs().len() && self.pairs()[i as int].0 == name@
                    && self.value_of(name@) == Some(self.pairs()[i as int].1),
                None => self.value_of(name@) is None,
            },
    {
        proof {
            use_type_invariant(self);
        }
        let n = self.entries.len();
        let ghost t = self.pairs();
        let mut i: usize = 0;
        while i < n
            invariant
                n == self.entries@.len(),
                t == self.pairs(),
                t.len() == n,
                names_distinct(t),
                i <= n,
                forall|k: int| 0 <= k < i ==> (#[trigger] t[k]).0 != name@,
            decreases n - i,
        {
            let key = chars_of(self.entries[i].0.as_str());
            assert(t[i as int].0 == self.entries@[i as int].0@);
            if chars_eq(key.as_slice(), name) {
                proof {
                    lemma_lookup_first_distinct(t, i as int);
                }
                return Some(i);
            }
            i = i + 1;
        }
        proof {
            lemma_lookup_first_found(t, name@);
        }
        None
    }

    /// The value set for `name`.
    pub fn get(&self, name: &str) -> (r: Option<&String>)
        ensures
            match r {
                Some(v) => self.value_of(name@) == Some(v@),
                None => self.value_of(name@) is None,
            },
    {
        let key = chars_of(name);
        match self.find(key.as_slice()) {
            Some(i) => {
                assert(self.pairs()[i as int].1 == self.entries@[i as int].1@);
                Some(&self.entries[i].1)
            },
            None => None,
        }
    }

    /// Sets `name` to `value`, returning the value it replaced.
    pub fn insert(&mut self, name: String, value: String) -> (r: Option<String>)
        ensures
            final(self).value_of(name@) == Some(value@),
            forall|other: Seq<char>|
                other != name@ ==> #[trigger] final(self).value_of(other) == old(self).value_of(
                    other,
                ),
            match r {
                Some(v) => old(self).value_of(name@) == Some(v@),
                None => old(self).value_of(name@) is None,
            },
            final(self).count() == old(self).count() + if old(self).value_of(name@) is None {
                1int
            } else {
                0int
            },
    {
        proof {
            use_type_invariant(&*self);
        }
        let key = chars_of(name.as_str());
        let found = self.find(key.as_slice());
        let ghost old_pairs = self.pairs();
        let mut entries: Vec<(String, String)> = Vec::new();
        std::mem::swap(&mut entries, &mut self.entries);
        assert(entries_view(entries@) == old_pairs);
        match found {
            Some(i) => {
                let prev = entries[i].1.clone();
                assert(prev@ == old_pairs[i as int].1);
                entries.set(i, (name, value));
                let ghost new_pairs = entries_view(entries@);
                assert(new_pairs =~= old_pairs.update(i as int, (old_pairs[i as int].0, value@)));
                assert(names_distinct(new_pairs)) by {
                    assert forall|a: int, b: int| 0 <= a < b < new_pairs.len() implies (
                    #[trigger] new_pairs[a]).0 != (#[trigger] new_pairs[b]).0 by {
                        assert(new_pairs[a].0 == old_pairs[a].0);
                        assert(new_pairs[b].0 == old_pairs[b].0);
                    }
                }
                proof {
                    lemma_lookup_first_distinct(new_pairs, i as int);
                    assert forall|other: Seq<char>| other != name@ implies lookup_first(
                        new_pairs,
                        other,
                    ) == lookup_first(old_pairs, other) by {
                        lemma_lookup_first_unchanged(old_pairs, i as int, value@, other);
                    }
                }
                self.entries = entries;
                Some(prev)
            },
            None => {
                entries.push((name, value));
                let ghost new_pairs = entries_view(entries@);
                assert(new_pairs =~= old_pairs.push((key@, value@)));
                proof {
                    lemma_lookup_first_found(old_pairs, key@);
                    assert(names_distinct(new_pairs)) by {
                        assert forall|a: int, b: int| 0 <= a < b < new_pairs.len() implies (
                        #[trigger] new_pairs[a]).0 != (#[trigger] new_pairs[b]).0 by {
                            if b == old_pairs.len() {
                                assert(old_pairs[a] == new_pairs[a]);
                            } else {
                                assert(old_pairs[a] == new_pairs[a]);
                                assert(old_pairs[b] == new_pairs[b]);
                            }
                        }
                    }
                    lemma_lookup_first_distinct(new_pairs, old_pairs.len() as int);
                    assert forall|other: Seq<char>| other != name@ implies lookup_first(
                        new_pairs,
                        other,
                    ) == lookup_first(old_pairs, other) by {
                        lemma_lookup_first_push(old_pairs, (key@, value@), other);
                    }
                }
                self.entries = entries;
                None
            },
        }
    }

    /// The number of names set.
    pub fn len(&self) -> (r: usize)
        ensures
            r == self.count(),
    {
        self.entries.len()
    }

    /// Whether no name is set.
    pub fn is_empty(&self) -> (r: bool)
        ensures
            r == (self.count() == 0),
            r ==> forall|name: Seq<char>| (#[trigger] self.value_of(name)) is None,
    {
        proof {
            if self.count() == 0 {
                assert forall|name: Seq<char>| (#[trigger] self.value_of(name)) is None by {
                    assert(self.pairs().len() == 0);
                }
            }
        }
        self.entries.len() == 0
    }

    /// Whether both hold the same names with the same values.
    pub fn same_options(&self, other: &Self) -> (r: bool)
        ensures
            r == (forall|name: Seq<char>| #[trigger] self.value_of(name) == other.value_of(name)),
    {
        self.all_found_in(other) && other.all_found_in(self)
    }

    /// Whether every name of `self` is set in `other` to the same value.
    fn all_found_in(&self, other: &Self) -> (r: bool)
        ensures
            r == (forall|name: Seq<char>|
                (#[trigger] self.value_of(name)) is Some ==> self.value_of(name)
                    == other.value_of(name)),
    {
        proof {
            use_type_invariant(self);
        }
        let n = self.entries.len();
        let ghost t = self.pairs();
        let mut i: usize = 0;
        while i < n
            invariant
                n == self.entries@.len(),
                t == self.pairs(),
                t.len() == n,
                names_distinct(t),
                i <= n,
                forall|k: int|
                    0 <= k < i ==> other.value_of((#[trigger] t[k]).0) == Some(t[k].1),
            decreases n - i,
        {
            let name = self.entries[i].0.as_str();
            assert(t[i as int].0 == name@);
            match other.get(name) {
                Some(v) => {
                    let mine = chars_of(self.entries[i].1.as_str());
                    let theirs = chars_of(v.as_str());
                    assert(t[i as int].1 == self.entries@[i as int].1@);
                    if !chars_eq(theirs.as_slice(), mine.as_slice()) {
                        proof {
                            lemma_lookup_first_distinct(t, i as int);
                            assert(self.value_of(t[i as int].0) == Some(t[i as int].1));
                            assert(other.value_of(t[i as int].0) != Some(t[i as int].1));
                        }
                        return false;
                    }
                },
                None => {
                    proof {
                        lemma_lookup_first_distinct(t, i as int);
                        assert(self.value_of(t[i as int].0) == Some(t[i as int].1));
                    }
                    return false;
                },
            }
            i = i + 1;
        }
        proof {
            assert forall|name: Seq<char>|
                (#[trigger] self.value_of(name)) is Some implies self.value_of(name)
                == other.value_of(name) by {
                lemma_lookup_first_found(t, name);
                let k = choose|k: int| 0 <= k < t.len() && (#[trigger] t[k]).0 == name && t[k].1
                    == self.value_of(name)->0;
            }
        }
        true
    }
}

/// Replacing the value of entry `i` leaves lookups of other names alone.
proof fn lemma_lookup_first_unchanged(
    t: Seq<(Seq<char>, Seq<char>)>,
    i: int,
    v: Seq<char>,
    other: Seq<char>,
)
    requires
        0 <= i < t.len(),
        other != t[i].0,
    ensures
        lookup_first(t.update(i, (t[i].0, v)), other) == lookup_first(t, other),
    decreases t.len(),
{
    let u = t.update(i, (t[i].0, v));
    if t.len() > 0 && i > 0 {
        assert(u.drop_first() =~= t.drop_first().update(i - 1, (t[i].0, v)));
        if t[0].0 != other {
            lemma_lookup_first_unchanged(t.drop_first(), i - 1, v, other);
        }
    }
    if i == 0 {
        assert(u.drop_first() =~= t.drop_first());
    }
}

/// Adding a pair for a new name leaves lookups of other names alone.
proof fn lemma_lookup_first_push(
    t: Seq<(Seq<char>, Seq<char>)>,
    p: (Seq<char>, Seq<char>),
    other: Seq<char>,
)
    requires
        other != p.0,
    ensures
        lookup_first(t.push(p), other) == lookup_first(t, other),
    decreases t.len(),
{
    if t.len() > 0 {
        assert(t.push(p).drop_first() =~= t.drop_first().push(p));
        lemma_lookup_first_push(t.drop_first(), p, other);
    } else {
        assert(t.push(p).drop_first() =~= t);
    }
}

impl Clone for BackendOptions {
    fn clone(&self) -> (r: Self)
        ensures
            r.pairs() == self.pairs(),
    {
        proof {
            use_type_invariant(self);
        }
        let n = self.entries.len();
        let mut entries: Vec<(String, String)> = Vec::new();
        let mut i: usize = 0;
        while i < n
            invariant
                n == self.entries@.len(),
                i <= n,
                entries_view(entries@) == entries_view(self.entries@).take(i as int),
            decreases n - i,
        {
            let k = self.entries[i].0.clone();
            let v = self.entries[i].1.clone();
            let ghost before = entries@;
            assert(k@ == self.entries@[i as int].0@ && v@ == self.entries@[i as int].1@);
            entries.push((k, v));
            assert(entries@ == before.push((k, v)));
            assert(entries_view(entries@) =~= entries_view(before).push((k@, v@)));
            assert(entries_view(entries@) =~= entries_view(self.entries@).take(i as int + 1));
            i = i + 1;
        }
        assert(entries_view(self.entries@).take(n as int) =~= entries_view(self.entries@));
        BackendOptions { entries }
    }
}

impl PartialEq for BackendOptions {
    fn eq(&self, other: &Self) -> (r: bool) {
        self.same_options(other)
    }
}

impl vstd::std_specs::cmp::PartialEqSpecImpl for BackendOptions {
    open spec fn obeys_eq_spec() -> bool {
        true
    }

    open spec fn eq_spec(&self, other: &Self) -> bool {
        forall|name: Seq<char>| #[trigger] self.value_of(name) == other.value_of(name)
    }
}

/// Configuration for initializing a backend.
#[derive(Debug, Clone)]
pub struct BackendConfig {
    /// Path to the model file (for local backends).
    pub model_path: Option<String>,
    /// Model name/size to use (e.g., "base", "small", "medium", "large").
    pub model_name: Option<String>,
    /// API key (for cloud backends).
    pub api_key: Option<String>,
    /// Additional backend-specific options.
    pub options: BackendOptions,
}

impl BackendConfig {
    /// Nothing set: no model path, model name or API key, no options.
    pub open spec fn is_empty_config(&self) -> bool {
        &&& self.model_path is None
        &&& self.model_name is None
        &&& self.api_key is None
        &&& self.options.count() == 0
        &&& forall|name: Seq<char>| (#[trigger] self.options.value_of(name)) is None
    }

    /// Create a new default backend configuration.
    pub fn new() -> (r: Self)
        ensures
            r.is_empty_config(),
    {
        BackendConfig { model_path: None, model_name: None, api_key: None, options: BackendOptions::new() }
    }

    /// Set the model path.
    pub fn with_model_path(self, path: &str) -> (r: Self)
        ensures
            r.model_path matches Some(p) && p@ == path@,
            r.model_name == self.model_name,
            r.api_key == self.api_key,
            r.options == self.options,
    {
        BackendConfig { model_path: Some(String::from_str(path)), ..self }
    }

    /// Set the model name.
    pub fn with_model_name(self, name: &str) -> (r: Self)
        ensures
            r.model_name matches Some(n) && n@ == name@,
            r.model_path == self.model_path,
            r.api_key == self.api_key,
            r.options == self.options,
    {
        BackendConfig { model_name: Some(String::from_str(name)), ..self }
    }

    /// Set the API key.
    pub fn with_api_key(self, key: &str) -> (r: Self)
        ensures
            r.api_key matches Some(k) && k@ == key@,
            r.model_path == self.model_path,
            r.model_name == self.model_name,
            r.options == self.options,
    {
        BackendConfig { api_key: Some(String::from_str(key)), ..self }
    }

    /// Add a custom option.
    pub fn with_option(self, key: &str, value: &str) -> (r: Self)
        ensures
            r.options.value_of(key@) == Some(value@),
            forall|other: Seq<char>|
                other != key@ ==> #[trigger] r.options.value_of(other) == self.options.value_of(
                    other,
                ),
            r.model_path == self.model_path,
            r.model_name == self.model_name,
            r.api_key == self.api_key,
    {
        let mut options = self.options;
        options.insert(String::from_str(key), String::from_str(value));
        BackendConfig { options, ..self }
    }
}

impl Default for BackendConfig {
    fn default() -> (r: Self)
        ensures
            r.is_empty_config(),
    {
        BackendConfig::new()
    }
}

} // verus!
