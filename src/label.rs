use std::collections::HashMap;

use vstd::prelude::*;

use crate::error::RepositoryError;

verus! {

broadcast use vstd::std_specs::hash::group_hash_axioms;

/// A label as stored: identity is `id`.
#[derive(Debug, Clone, PartialEq, Eq)]
pub struct Label {
    pub name: String,
    pub id: i32,
}

/// The mathematical value of a label.
pub struct LabelView {
    pub id: i32,
    pub name: Seq<char>,
}

impl View for Label {
    type V = LabelView;

    open spec fn view(&self) -> LabelView {
        LabelView { id: self.id, name: self.name@ }
    }
}

/// Payload of a label creation.
#[derive(Debug, Clone, PartialEq, Eq)]
pub struct CreateLabel {
    pub name: String,
}

/// Payload of a label rename.
#[derive(Debug, Clone, PartialEq, Eq)]
pub struct UpdateLabel {
    id: i32,
    name: String,
}

impl Label {
    pub fn new(id: i32, name: String) -> (r: Self)
        ensures
            r@ == (LabelView { id, name: name@ }),
    {
        Self { id, name }
    }

    /// An independent copy of this label.
    pub fn copied(&self) -> (r: Self)
        ensures
            r == *self,
    {
        Label { id: self.id, name: self.name.clone() }
    }
}

impl CreateLabel {
    pub fn new(name: String) -> (r: Self)
        ensures
            r.name@ == name@,
    {
        Self { name }
    }
}

/// Independent copies of a sequence of labels.
pub fn copy_labels(v: &Vec<Label>) -> (r: Vec<Label>)
    ensures
        r@ == v@,
{
    let mut r: Vec<Label> = Vec::new();
    let mut i: usize = 0;
    while i < v.len()
        invariant
            i <= v@.len(),
            r@ == v@.subrange(0, i as int),
        decreases v@.len() - i,
    {
        r.push(v[i].copied());
        i = i + 1;
        assert(r@ =~= v@.subrange(0, i as int));
    }
    assert(v@.subrange(0, v@.len() as int) =~= v@);
    r
}

/// Whether some label of `labels` carries the name `name`.
pub open spec fn name_taken(labels: Map<i32, LabelView>, name: Seq<char>) -> bool {
    exists|id: i32| #[trigger] labels.contains_key(id) && labels[id].name == name
}

/// No two labels of `labels` share a name.
pub open spec fn names_unique(labels: Map<i32, LabelView>) -> bool {
    forall|i: i32, j: i32|
        #[trigger] labels.contains_key(i) && #[trigger] labels.contains_key(j) && labels[i].name
            == labels[j].name ==> i == j
}

/// Every key of `labels` is the id of the label stored under it.
pub open spec fn keyed_by_id(labels: Map<i32, LabelView>) -> bool {
    forall|k: i32| #[trigger] labels.contains_key(k) ==> labels[k].id == k
}

/// `s` lists the labels of `labels`, each once, by ascending id.
pub open spec fn lists_ascending(labels: Map<i32, LabelView>, s: Seq<LabelView>) -> bool {
    &&& forall|i: int, j: int| 0 <= i < j < s.len() ==> s[i].id < s[j].id
    &&& forall|i: int| 0 <= i < s.len() ==> #[trigger] labels.contains_key(s[i].id)
        && labels[s[i].id] == s[i]
    &&& forall|k: i32| #[trigger] labels.contains_key(k) ==> exists|i: int|
        0 <= i < s.len() && #[trigger] s[i].id == k
}

/// The views of a sequence of labels.
pub open spec fn label_views(s: Seq<Label>) -> Seq<LabelView> {
    s.map_values(|l: Label| l@)
}

/// Access to stored labels, shared by every backing store.
pub trait LabelRepository: Sized {
    /// The store's internal consistency.
    spec fn inv(&self) -> bool;

    /// The stored labels, keyed by id.
    spec fn labels(&self) -> Map<i32, LabelView>;

    /// The id that the next successful `create` assigns.
    spec fn fresh_id(&self) -> i32;

    /// Adds a label named `name`, unless a label of that name exists already.
    fn create(&mut self, name: String) -> (r: Result<Label, RepositoryError>)
        requires
            old(self).inv(),
        ensures
            final(self).inv(),
            keyed_by_id(final(self).labels()),
            names_unique(final(self).labels()),
            name_taken(old(self).labels(), name@) ==> exists|d: i32|
                r == Err::<Label, RepositoryError>(RepositoryError::Duplicate(d))
                && #[trigger] old(self).labels().contains_key(d)
                && old(self).labels()[d].name == name@,
            !name_taken(old(self).labels(), name@) && old(self).fresh_id() == i32::MAX ==> r
                is Err && !(r->Err_0 is NotFound) && !(r->Err_0 is Duplicate),
            r is Ok <==> !name_taken(old(self).labels(), name@) && old(self).fresh_id()
                < i32::MAX,
            r is Ok ==> {
                &&& r->Ok_0@ == (LabelView { id: old(self).fresh_id(), name: name@ })
                &&& !old(self).labels().contains_key(old(self).fresh_id())
                &&& final(self).labels() == old(self).labels().insert(
                    old(self).fresh_id(),
                    r->Ok_0@,
                )
                &&& final(self).fresh_id() > old(self).fresh_id()
            },
            r is Err ==> final(self).labels() == old(self).labels() && final(self).fresh_id()
                == old(self).fresh_id(),
    ;

    /// Every stored label, by ascending id.
    fn all(&self) -> (r: Vec<Label>)
        requires
            self.inv(),
        ensures
            lists_ascending(self.labels(), label_views(r@)),
    ;

    /// Removes the label `id`.
    fn delete(&mut self, id: i32) -> (r: Result<(), RepositoryError>)
        requires
            old(self).inv(),
        ensures
            final(self).inv(),
            final(self).fresh_id() == old(self).fresh_id(),
            old(self).labels().contains_key(id) ==> r is Ok && final(self).labels()
                == old(self).labels().remove(id),
            !old(self).labels().contains_key(id) ==> r == Err::<(), RepositoryError>(
                RepositoryError::NotFound(id),
            ) && final(self).labels() == old(self).labels(),
    ;
}

/// Labels held in process memory, with ids drawn from a counter that never
/// goes back, so an id is never handed out twice.
#[derive(Debug, Clone)]
pub struct LabelRepositoryforMemory {
    store: HashMap<i32, Label>,
    next_id: i32,
}

impl LabelRepositoryforMemory {
    pub fn new() -> (r: Self)
        ensures
            r.inv(),
            r.labels() == Map::<i32, LabelView>::empty(),
            r.fresh_id() == 1,
    {
        let r = LabelRepositoryforMemory { store: HashMap::new(), next_id: 1 };
        assert(r.labels() =~= Map::<i32, LabelView>::empty());
        r
    }

    /// The id of a stored label named `name`, if any.
    fn find_by_name(&self, name: &String) -> (r: Option<i32>)
        requires
            self.inv(),
        ensures
            r is Some ==> self.labels().contains_key(r->0) && self.labels()[r->0].name == name@,
            r is None ==> !name_taken(self.labels(), name@),
    {
        let mut k: i32 = 1;
        while k < self.next_id
            invariant
                self.inv(),
                1 <= k <= self.next_id,
                forall|j: i32| 1 <= j < k && #[trigger] self.labels().contains_key(j)
                    ==> self.labels()[j].name != name@,
            decreases self.next_id - k,
        {
            match self.store.get(&k) {
                Some(l) => {
                    if l.name == *name {
                        return Some(k);
                    }
                },
                None => {},
            }
            k = k + 1;
        }
        None
    }
}

impl LabelRepository for LabelRepositoryforMemory {
    closed spec fn inv(&self) -> bool {
        &&& 1 <= self.next_id
        &&& forall|k: i32| #[trigger]
            self.store@.contains_key(k) ==> 1 <= k < self.next_id && self.store@[k].id == k
        &&& names_unique(self.labels())
    }

    closed spec fn labels(&self) -> Map<i32, LabelView> {
        self.store@.map_values(|l: Label| l@)
    }

    closed spec fn fresh_id(&self) -> i32 {
        self.next_id
    }

    fn create(&mut self, name: String) -> (r: Result<Label, RepositoryError>) {
        match self.find_by_name(&name) {
            Some(d) => {
                return Err(RepositoryError::Duplicate(d));
            },
            None => {},
        }
        if self.next_id == i32::MAX {
            return Err(RepositoryError::Unexpected("label ids are exhausted".to_string()));
        }
        let id = self.next_id;
        let label = Label::new(id, name);
        self.store.insert(id, label.copied());
        self.next_id = id + 1;
        assert(self.labels() =~= old(self).labels().insert(id, label@));
        Ok(label)
    }

    fn all(&self) -> (r: Vec<Label>) {
        let mut r: Vec<Label> = Vec::new();
        let mut k: i32 = 1;
        while k < self.next_id
            invariant
                self.inv(),
                1 <= k <= self.next_id,
                forall|i: int, j: int| 0 <= i < j < r@.len() ==> r@[i].id < r@[j].id,
                forall|i: int| 0 <= i < r@.len() ==> r@[i].id < k,
                forall|i: int| 0 <= i < r@.len() ==> #[trigger] self.store@.contains_key(r@[i].id)
                    && self.store@[r@[i].id] == r@[i],
                forall|j: i32| 1 <= j < k && #[trigger] self.store@.contains_key(j)
                    ==> exists|i: int| 0 <= i < r@.len() && #[trigger] r@[i].id == j,
            decreases self.next_id - k,
        {
            let ghost prev = r@;
            match self.store.get(&k) {
                Some(l) => {
                    r.push(l.copied());
                    assert(r@[r@.len() - 1].id == k);
                },
                None => {},
            }
            assert forall|j: i32| 1 <= j <= k && #[trigger] self.store@.contains_key(j)
                implies exists|i: int| 0 <= i < r@.len() && #[trigger] r@[i].id == j by {
                if j < k {
                    let i = choose|i: int| 0 <= i < prev.len() && #[trigger] prev[i].id == j;
                    assert(r@[i] == prev[i]);
                } else {
                    assert(r@[r@.len() - 1].id == j);
                }
            }
            k = k + 1;
        }
        let ghost s = label_views(r@);
        assert forall|k: i32| #[trigger] self.labels().contains_key(k) implies exists|i: int|
            0 <= i < s.len() && #[trigger] s[i].id == k by {
            let i = choose|i: int| 0 <= i < r@.len() && #[trigger] r@[i].id == k;
            assert(s[i].id == k);
        }
        r
    }

    fn delete(&mut self, id: i32) -> (r: Result<(), RepositoryError>) {
        match self.store.remove(&id) {
            Some(_) => {
                assert(self.labels() =~= old(self).labels().remove(id));
                Ok(())
            },
            None => {
                assert(self.labels() =~= old(self).labels());
                Err(RepositoryError::NotFound(id))
            },
        }
    }
}

/// Decides a creation in a store that answers "which label has this name"
/// and "insert" as separate statements: an existing label makes it fail with
/// `Duplicate` of that label's id, and only its absence lets the insert go on.
pub fn admit_new_name(existing: Option<Label>) -> (r: Result<(), RepositoryError>)
    ensures
        match existing {
            Some(l) => r == Err::<(), RepositoryError>(RepositoryError::Duplicate(l.id)),
            None => r is Ok,
        },
{
    match existing {
        Some(l) => Err(RepositoryError::Duplicate(l.id)),
        None => Ok(()),
    }
}

} // verus!
