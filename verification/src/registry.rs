//! Typed address registry: late binding of named handles.
//!
//! The registry is a map from string name to handle. Inserting under an
//! existing name overwrites; looking up a name never inserted yields
//! nothing. The convenience key for typed addresses prefixes the name with
//! the handle's type name, so two differently-typed actors may share a
//! human-readable name without colliding.

use vstd::prelude::*;
use vstd::string::StringExecFns;

use crate::table::{distinct_seq, lemma_index_of_distinct, lemma_push_distinct};

verus! {

/// Both registries hold `m` alike: the same presence and the same handle.
pub open spec fn reg_agree<V>(t0: &Registry<V>, t1: &Registry<V>, m: Seq<char>) -> bool {
    t0.has_name(m) == t1.has_name(m) && (t0.has_name(m) ==> t0.value_for(m) == t1.value_for(m))
}

/// Both registries agree on every name other than `name`.
pub open spec fn others_preserved<V>(t0: &Registry<V>, t1: &Registry<V>, name: Seq<char>) -> bool {
    forall|m: Seq<char>| m != name ==> #[trigger] reg_agree(t0, t1, m)
}

/// A map from string name to a handle of type `V`, insert-overwrite.
pub struct Registry<V> {
    names: Vec<String>,
    values: Vec<V>,
}

impl<V> Registry<V> {
    /// The names with an entry, in table order.
    pub closed spec fn name_seq(&self) -> Seq<Seq<char>> {
        self.names@.map_values(|s: String| s@)
    }

    /// The stored handles, in table order.
    pub closed spec fn value_seq(&self) -> Seq<V> {
        self.values@
    }

    /// Whether `name` has an entry.
    pub open spec fn has_name(&self, name: Seq<char>) -> bool {
        self.name_seq().contains(name)
    }

    /// The handle stored under `name`.
    pub open spec fn value_for(&self, name: Seq<char>) -> V {
        self.value_seq()[self.name_seq().index_of(name)]
    }

    /// One value per name, no name twice.
    pub open spec fn wf(&self) -> bool {
        &&& self.name_seq().len() == self.value_seq().len()
        &&& distinct_seq(self.name_seq())
    }

    /// An empty registry.
    pub fn new() -> (r: Registry<V>)
        ensures
            r.wf(),
            r.name_seq().len() == 0,
    {
        Registry { names: Vec::new(), values: Vec::new() }
    }

    /// Find the table index of `name`, if present.
    fn find(&self, name: &str) -> (r: Option<usize>)
        requires
            self.wf(),
        ensures
            match r {
                Some(i) => 0 <= i < self.name_seq().len() && self.name_seq()[i as int] == name@
                    && self.name_seq().index_of(name@) == i,
                None => !self.has_name(name@),
            },
    {
        let name_owned = name.to_owned();
        let n = self.names.len();
        let mut i: usize = 0;
        while i < n
            invariant
                0 <= i <= n,
                n == self.name_seq().len(),
                name_owned@ == name@,
                self.wf(),
                forall|j: int| 0 <= j < i ==> self.name_seq()[j] != name@,
            decreases n - i,
        {
            if self.names[i] == name_owned {
                proof {
                    lemma_index_of_distinct(self.name_seq(), i as int);
                }
                return Some(i);
            }
            i = i + 1;
        }
        None
    }

    /// Store `value` under `name`, overwriting any earlier entry.
    pub fn insert_named(&mut self, name: String, value: V)
        requires
            old(self).wf(),
        ensures
            final(self).wf(),
            final(self).has_name(name@),
            final(self).value_for(name@) == value,
            others_preserved(old(self), final(self), name@),
    {
        match self.find(name.as_str()) {
            Some(i) => {
                self.values.set(i, value);
                proof {
                    assert(self.name_seq() =~= old(self).name_seq());
                    lemma_index_of_distinct(self.name_seq(), i as int);
                    assert forall|m: Seq<char>| m != name@ implies #[trigger] reg_agree(
                        old(self),
                        self,
                        m,
                    ) by {
                        if old(self).has_name(m) {
                            let k = choose|k: int|
                                0 <= k < old(self).name_seq().len() && old(self).name_seq()[k] == m;
                            assert(k != i as int);
                            lemma_index_of_distinct(self.name_seq(), k);
                            assert(self.value_seq()[k] == old(self).value_seq()[k]);
                        }
                    }
                }
            },
            None => {
                self.names.push(name);
                self.values.push(value);
                proof {
                    let n = old(self).name_seq().len() as int;
                    assert(self.name_seq() =~= old(self).name_seq().push(name@));
                    lemma_push_distinct(old(self).name_seq(), name@);
                    assert(self.name_seq()[n] == name@);
                    lemma_index_of_distinct(self.name_seq(), n);
                    assert forall|m: Seq<char>| m != name@ implies #[trigger] reg_agree(
                        old(self),
                        self,
                        m,
                    ) by {
                        if old(self).has_name(m) {
                            let k0 = choose|k0: int|
                                0 <= k0 < old(self).name_seq().len() && old(self).name_seq()[k0]
                                    == m;
                            assert(self.name_seq()[k0] == m);
                            assert(self.has_name(m));
                            lemma_index_of_distinct(old(self).name_seq(), k0);
                            lemma_index_of_distinct(self.name_seq(), k0);
                            assert(self.value_seq()[k0] == old(self).value_seq()[k0]);
                        }
                        if self.has_name(m) {
                            let k = choose|k: int|
                                0 <= k < self.name_seq().len() && self.name_seq()[k] == m;
                            assert(k != n);
                            assert(old(self).name_seq()[k] == m);
                            assert(old(self).has_name(m));
                        }
                    }
                }
            },
        }
    }

    /// Borrow the handle stored under `name`: the stored value when the
    /// name has an entry, nothing for a name never inserted.
    pub fn get_named(&self, name: &str) -> (r: Option<&V>)
        requires
            self.wf(),
        ensures
            self.has_name(name@) ==> (r matches Some(v) && v == self.value_for(name@)),
            !self.has_name(name@) ==> r is None,
    {
        match self.find(name) {
            Some(i) => Some(&self.values[i]),
            None => None,
        }
    }
}

/// The registry key for a typed address: the handle's type name, two
/// colons, then the actor's name, so that two differently-typed actors may
/// share a human-readable name.
pub fn registry_key(kind_name: &str, name: &str) -> (r: String)
    ensures
        r@ == kind_name@ + "::"@ + name@,
{
    let mut s = kind_name.to_owned();
    s.append("::");
    s.append(name);
    s
}

} // verus!
