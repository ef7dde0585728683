//! Values kept under short text labels.

use vstd::prelude::*;

verus! {

/// One labelled value.
pub struct Entry<T> {
    pub label: String,
    pub value: T,
}

/// A collection of values, each under a label of its own. Writing under a
/// label that is already there replaces the value; the labels keep the
/// order in which they first came.
pub struct LabelMap<T> {
    entries: Vec<Entry<T>>,
}

/// No label occurs twice.
pub open spec fn distinct_labels<T>(entries: Seq<Entry<T>>) -> bool {
    forall|i: int, j: int|
        0 <= i < j < entries.len() ==> (#[trigger] entries[i]).label@ != (
        #[trigger] entries[j]).label@
}

/// Some entry carries the label `key`.
pub open spec fn has_label<T>(entries: Seq<Entry<T>>, key: Seq<char>) -> bool {
    exists|i: int| 0 <= i < entries.len() && (#[trigger] entries[i]).label@ == key
}

/// The place of `name` among `labels`.
pub open spec fn place_in(labels: Seq<Seq<char>>, name: Seq<char>) -> int {
    choose|i: int| 0 <= i < labels.len() && labels[i] == name
}

/// The place of an entry that carries the label `key`.
pub open spec fn place_of<T>(entries: Seq<Entry<T>>, key: Seq<char>) -> int {
    choose|i: int| 0 <= i < entries.len() && (#[trigger] entries[i]).label@ == key
}

impl<T: Copy> LabelMap<T> {
    /// Well-formedness: no label occurs twice.
    pub closed spec fn wf(&self) -> bool {
        distinct_labels(self.entries@)
    }

    /// The labels, in the order in which they were first written.
    pub closed spec fn labels(&self) -> Seq<Seq<char>> {
        Seq::new(self.entries@.len(), |i: int| self.entries@[i].label@)
    }

    /// The value under each label.
    pub closed spec fn view(&self) -> Map<Seq<char>, T> {
        Map::new(
            |key: Seq<char>| has_label(self.entries@, key),
            |key: Seq<char>| self.entries@[place_of(self.entries@, key)].value,
        )
    }

    /// The labels are the keys of the view, each once.
    pub proof fn lemma_labels(&self)
        requires
            self.wf(),
        ensures
            self.labels().no_duplicates(),
            forall|key: Seq<char>| self.labels().contains(key) <==> self@.contains_key(key),
    {
        assert forall|key: Seq<char>| self.labels().contains(key) implies self@.contains_key(
            key,
        ) by {
            let i = choose|i: int| 0 <= i < self.labels().len() && self.labels()[i] == key;
            assert(self.entries@[i].label@ == key);
        }
        assert forall|key: Seq<char>| self@.contains_key(key) implies self.labels().contains(
            key,
        ) by {
            let i = place_of(self.entries@, key);
            assert(self.labels()[i] == key);
        }
    }

    /// An empty collection.
    pub fn new() -> (r: Self)
        ensures
            r.wf(),
            r@ == Map::<Seq<char>, T>::empty(),
            r.labels() == Seq::<Seq<char>>::empty(),
    {
        let r = LabelMap { entries: Vec::new() };
        assert(r@ =~= Map::<Seq<char>, T>::empty());
        assert(r.labels() =~= Seq::<Seq<char>>::empty());
        r
    }

    /// The number of labels. They are the keys of the view, each once.
    pub fn len(&self) -> (n: usize)
        requires
            self.wf(),
        ensures
            n == self.labels().len(),
            self.labels().no_duplicates(),
            forall|key: Seq<char>| self.labels().contains(key) <==> self@.contains_key(key),
    {
        proof {
            self.lemma_labels();
        }
        self.entries.len()
    }

    /// The label at place `i` in the order of first writing.
    pub fn label_at(&self, i: usize) -> (r: &String)
        requires
            self.wf(),
            i < self.labels().len(),
        ensures
            r@ == self.labels()[i as int],
            self@.contains_key(r@),
    {
        assert(has_label(self.entries@, self.entries@[i as int].label@));
        &self.entries[i].label
    }

    /// The value at place `i` in the order of first writing.
    pub fn value_at(&self, i: usize) -> (r: T)
        requires
            self.wf(),
            i < self.labels().len(),
        ensures
            self@.contains_key(self.labels()[i as int]),
            r == self@[self.labels()[i as int]],
    {
        assert(has_label(self.entries@, self.entries@[i as int].label@));
        self.entries[i].value
    }

    /// The place of the entry under `key`, if there is one.
    fn find(&self, key: &String) -> (r: Option<usize>)
        ensures
            match r {
                Some(i) => i < self.entries@.len() && self.entries@[i as int].label@ == key@,
                None => !has_label(self.entries@, key@),
            },
    {
        let mut i: usize = 0;
        while i < self.entries.len()
            invariant
                i <= self.entries@.len(),
                forall|j: int| 0 <= j < i ==> (#[trigger] self.entries@[j]).label@ != key@,
            decreases self.entries@.len() - i,
        {
            if self.entries[i].label == *key {
                return Some(i);
            }
            i += 1;
        }
        None
    }

    /// The place of `label` in the order of first writing, if it is there.
    pub fn position(&self, label: &str) -> (r: Option<usize>)
        requires
            self.wf(),
        ensures
            match r {
                Some(i) => i < self.labels().len() && self.labels()[i as int] == label@
                    && self@.contains_key(label@) && i == place_in(self.labels(), label@),
                None => !self@.contains_key(label@),
            },
    {
        let key = label.to_owned();
        let r = self.find(&key);
        proof {
            if let Some(i) = r {
                assert(has_label(self.entries@, self.entries@[i as int].label@));
                assert(self.labels()[i as int] == label@);
                let j = place_in(self.labels(), label@);
                assert(self.entries@[j].label@ == self.entries@[i as int].label@);
            }
        }
        r
    }

    /// Whether a value stands under `label`.
    pub fn contains(&self, label: &str) -> (r: bool)
        ensures
            r == self@.contains_key(label@),
    {
        let key = label.to_owned();
        self.find(&key).is_some()
    }

    /// The value under `label`, if there is one.
    pub fn get(&self, label: &str) -> (r: Option<T>)
        requires
            self.wf(),
        ensures
            r == if self@.contains_key(label@) {
                Some(self@[label@])
            } else {
                None
            },
    {
        let key = label.to_owned();
        match self.find(&key) {
            Some(i) => Some(self.entries[i].value),
            None => None,
        }
    }

    /// Writes `value` under `label`, in place of a value that stood there.
    pub fn insert(&mut self, label: &str, value: T)
        requires
            old(self).wf(),
        ensures
            final(self).wf(),
            final(self)@ == old(self)@.insert(label@, value),
            final(self).labels() == if old(self)@.contains_key(label@) {
                old(self).labels()
            } else {
                old(self).labels().push(label@)
            },
    {
        let key = label.to_owned();
        let ghost before = self.entries@;
        let ghost at: int;
        match self.find(&key) {
            Some(i) => {
                self.entries.set(i, Entry { label: key, value });
                proof {
                    at = i as int;
                }
                assert(self.labels() =~= old(self).labels());
            },
            None => {
                self.entries.push(Entry { label: key, value });
                proof {
                    at = before.len() as int;
                }
                assert(self.labels() =~= old(self).labels().push(label@));
            },
        }
        proof {
            let after = self.entries@;
            assert(after[at].label@ == label@ && after[at].value == value);
            assert forall|i: int| 0 <= i < after.len() && i != at implies #[trigger] after[i]
                == before[i] by {}
            assert forall|i: int| 0 <= i < before.len() && i != at implies #[trigger] after[i]
                == before[i] by {}
            assert forall|k: Seq<char>| has_label(after, k) <==> (k == label@ || has_label(
                before,
                k,
            )) by {
                if has_label(after, k) && k != label@ {
                    let i = place_of(after, k);
                    assert(before[i].label@ == k);
                }
                if has_label(before, k) && k != label@ {
                    let i = place_of(before, k);
                    assert(after[i].label@ == k);
                }
            }
            assert forall|k: Seq<char>| has_label(after, k) implies #[trigger] self@[k] == old(
                self,
            )@.insert(label@, value)[k] by {
                let i = place_of(after, k);
                if k != label@ {
                    let j = place_of(before, k);
                    assert(before[i].label@ == k);
                    assert(i == j);
                } else {
                    assert(i == at);
                }
            }
            assert(self@ =~= old(self)@.insert(label@, value));
        }
    }

    /// Replaces the value at place `i`, leaving its label as it is.
    pub fn set_value_at(&mut self, i: usize, value: T)
        requires
            old(self).wf(),
            i < old(self).labels().len(),
        ensures
            final(self).wf(),
            final(self).labels() == old(self).labels(),
            final(self)@ == old(self)@.insert(old(self).labels()[i as int], value),
    {
        let ghost before = self.entries@;
        let label = self.entries[i].label.clone();
        self.entries.set(i, Entry { label, value });
        proof {
            let after = self.entries@;
            let at = i as int;
            let key = before[at].label@;
            assert(after[at].label@ == key && after[at].value == value);
            assert forall|j: int| 0 <= j < after.len() && j != at implies #[trigger] after[j]
                == before[j] by {}
            assert(self.labels() =~= old(self).labels());
            assert forall|k: Seq<char>| has_label(after, k) <==> has_label(before, k) by {
                if has_label(after, k) {
                    let j = place_of(after, k);
                    assert(before[j].label@ == k);
                }
                if has_label(before, k) {
                    let j = place_of(before, k);
                    assert(after[j].label@ == k);
                }
            }
            assert(has_label(before, key));
            assert forall|k: Seq<char>| has_label(after, k) implies #[trigger] self@[k] == old(
                self,
            )@.insert(key, value)[k] by {
                let j = place_of(after, k);
                if k != key {
                    let j0 = place_of(before, k);
                    assert(before[j].label@ == k);
                    assert(j == j0);
                } else {
                    assert(j == at);
                }
            }
            assert(self@ =~= old(self)@.insert(key, value));
        }
    }
}

} // verus!
