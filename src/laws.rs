//! Properties that hold across several repository operations, stated over the
//! models that the operations' contracts use.

use vstd::prelude::*;

use crate::error::RepositoryError;
use crate::label::{names_unique, name_taken, LabelView};
use crate::todo::{
    delete_result, lists_descending, lookup, new_todo, patched, update_result, updated, TodoView,
    UpdateTodo,
};

verus! {

broadcast use {vstd::seq_lib::group_seq_properties, vstd::set::group_set_axioms};

/// Creating a todo and then looking up the id it was given yields the created
/// entity.
pub proof fn law_create_then_find(todos: Map<i32, TodoView>, id: i32, text: Seq<char>)
    requires
        !todos.contains_key(id),
    ensures
        lookup(todos.insert(id, new_todo(id, text)), id) == Ok::<TodoView, RepositoryError>(
            new_todo(id, text),
        ),
{
}

/// In a store without `id`, looking it up, updating it and deleting it each
/// fail with `NotFound(id)`, and neither the update nor the delete changes the
/// store.
pub proof fn law_absent_id_not_found(todos: Map<i32, TodoView>, id: i32, p: UpdateTodo)
    requires
        !todos.contains_key(id),
    ensures
        lookup(todos, id) == Err::<TodoView, RepositoryError>(RepositoryError::NotFound(id)),
        update_result(todos, id, p) == Err::<TodoView, RepositoryError>(
            RepositoryError::NotFound(id),
        ),
        updated(todos, id, p) == todos,
        delete_result(todos, id) == Err::<(), RepositoryError>(RepositoryError::NotFound(id)),
        todos.remove(id) == todos,
{
    assert(todos.remove(id) =~= todos);
}

/// The store that successive creations with `texts`, given the ids `ids`,
/// build from an empty one.
pub open spec fn created_store(ids: Seq<i32>, texts: Seq<Seq<char>>) -> Map<i32, TodoView>
    decreases ids.len(),
{
    if ids.len() == 0 || texts.len() == 0 {
        Map::empty()
    } else {
        created_store(ids.drop_last(), texts.drop_last()).insert(
            ids.last(),
            new_todo(ids.last(), texts.last()),
        )
    }
}

proof fn lemma_created_store(ids: Seq<i32>, texts: Seq<Seq<char>>)
    requires
        ids.len() == texts.len(),
        forall|i: int, j: int| 0 <= i < j < ids.len() ==> ids[i] < ids[j],
    ensures
        created_store(ids, texts).dom() == ids.to_set(),
        forall|k: int|
            0 <= k < ids.len() ==> #[trigger] created_store(ids, texts)[ids[k]] == new_todo(
                ids[k],
                texts[k],
            ),
    decreases ids.len(),
{
    if ids.len() == 0 {
        assert(created_store(ids, texts).dom() =~= ids.to_set());
    } else {
        let (pi, pt) = (ids.drop_last(), texts.drop_last());
        lemma_created_store(pi, pt);
        let m = created_store(ids, texts);
        assert(m.dom() =~= ids.to_set()) by {
            assert forall|x: i32| ids.to_set().contains(x) implies m.dom().contains(x) by {
                let k = choose|k: int| 0 <= k < ids.len() && ids[k] == x;
                if k < ids.len() - 1 {
                    assert(pi[k] == x);
                    assert(pi.to_set().contains(x));
                }
            }
            assert forall|x: i32| m.dom().contains(x) implies ids.to_set().contains(x) by {
                if x != ids.last() {
                    assert(pi.to_set().contains(x));
                    let k = choose|k: int| 0 <= k < pi.len() && pi[k] == x;
                    assert(ids[k] == x);
                }
            }
        }
        assert forall|k: int| 0 <= k < ids.len() implies #[trigger] m[ids[k]] == new_todo(
            ids[k],
            texts[k],
        ) by {
            if k < ids.len() - 1 {
                assert(pi[k] == ids[k]);
                assert(created_store(pi, pt)[pi[k]] == new_todo(pi[k], pt[k]));
            }
        }
    }
}

/// After creations with `texts` in an empty store, which hand out ever larger
/// ids (as `create` does), a listing of every todo holds exactly one entry per
/// creation, each the todo that creation made.
pub proof fn law_all_after_creates(ids: Seq<i32>, texts: Seq<Seq<char>>, s: Seq<TodoView>)
    requires
        ids.len() == texts.len(),
        forall|i: int, j: int| 0 <= i < j < ids.len() ==> ids[i] < ids[j],
        lists_descending(created_store(ids, texts), s),
    ensures
        s.len() == ids.len(),
        forall|i: int|
            #![trigger s[i]]
            0 <= i < s.len() ==> exists|k: int|
                #![trigger ids[k]]
                0 <= k < ids.len() && s[i] == new_todo(ids[k], texts[k]),
        forall|k: int|
            #![trigger ids[k]]
            0 <= k < ids.len() ==> exists|i: int|
                #![trigger s[i]]
                0 <= i < s.len() && s[i] == new_todo(ids[k], texts[k]),
{
    let m = created_store(ids, texts);
    lemma_created_store(ids, texts);
    ids.unique_seq_to_set();
    let sid = s.map_values(|t: TodoView| t.id);
    assert(sid.no_duplicates());
    assert(sid.to_set() =~= m.dom()) by {
        assert forall|x: i32| m.dom().contains(x) implies sid.to_set().contains(x) by {
            assert(m.contains_key(x));
            let i = choose|i: int| 0 <= i < s.len() && #[trigger] s[i].id == x;
            assert(sid[i] == x);
        }
        assert forall|x: i32| sid.to_set().contains(x) implies m.dom().contains(x) by {
            let i = choose|i: int| 0 <= i < sid.len() && sid[i] == x;
            assert(m.contains_key(s[i].id));
        }
    }
    sid.unique_seq_to_set();
    assert forall|i: int| #![trigger s[i]] 0 <= i < s.len() implies exists|k: int|
        #![trigger ids[k]] 0 <= k < ids.len() && s[i] == new_todo(ids[k], texts[k]) by {
        assert(m.contains_key(s[i].id));
        assert(ids.to_set().contains(s[i].id));
        let k = choose|k: int| 0 <= k < ids.len() && ids[k] == s[i].id;
        assert(m[ids[k]] == new_todo(ids[k], texts[k]));
    }
    assert forall|k: int| #![trigger ids[k]] 0 <= k < ids.len() implies exists|i: int|
        #![trigger s[i]] 0 <= i < s.len() && s[i] == new_todo(ids[k], texts[k]) by {
        assert(ids.to_set().contains(ids[k]));
        assert(m.contains_key(ids[k]));
        let i = choose|i: int| 0 <= i < s.len() && #[trigger] s[i].id == ids[k];
        assert(m[ids[k]] == new_todo(ids[k], texts[k]));
    }
}

/// An update that carries only a text replaces the text of the todo and
/// leaves its id, completion and labels as they were, and no other todo
/// changes.
pub proof fn law_text_update_changes_only_text(
    todos: Map<i32, TodoView>,
    id: i32,
    p: UpdateTodo,
)
    requires
        todos.contains_key(id),
        p.text is Some,
        p.completed is None,
        p.labels is None,
    ensures
        ({
            let t = patched(todos[id], p);
            &&& update_result(todos, id, p) == Ok::<TodoView, RepositoryError>(t)
            &&& t.text == p.text->0@
            &&& t.id == todos[id].id
            &&& t.completed == todos[id].completed
            &&& t.labels == todos[id].labels
        }),
        forall|k: i32| k != id ==> #[trigger] updated(todos, id, p).contains_key(k)
            == todos.contains_key(k) && updated(todos, id, p)[k] == todos[k],
{
}

/// Once `id` is deleted, looking it up fails with `NotFound(id)`, and a second
/// delete fails with `NotFound(id)` too.
pub proof fn law_delete_then_gone(todos: Map<i32, TodoView>, id: i32)
    requires
        todos.contains_key(id),
    ensures
        delete_result(todos, id) == Ok::<(), RepositoryError>(()),
        lookup(todos.remove(id), id) == Err::<TodoView, RepositoryError>(
            RepositoryError::NotFound(id),
        ),
        delete_result(todos.remove(id), id) == Err::<(), RepositoryError>(
            RepositoryError::NotFound(id),
        ),
{
}

/// After a label named `name` is created under `id` in a store where the name
/// was free, the name is taken, and `id` is the only label that carries it:
/// a second creation with the same name reports `Duplicate(id)`.
pub proof fn law_label_name_unique(labels: Map<i32, LabelView>, id: i32, name: Seq<char>)
    requires
        names_unique(labels),
        !name_taken(labels, name),
        !labels.contains_key(id),
    ensures
        ({
            let after = labels.insert(id, LabelView { id, name });
            &&& names_unique(after)
            &&& name_taken(after, name)
            &&& forall|d: i32| #[trigger] after.contains_key(d) && after[d].name == name ==> d
                == id
        }),
{
    let after = labels.insert(id, LabelView { id, name });
    assert(after.contains_key(id) && after[id].name == name);
    assert forall|d: i32| #[trigger] after.contains_key(d) && after[d].name == name implies d
        == id by {
        if d != id {
            assert(labels.contains_key(d) && labels[d].name == name);
        }
    }
}

} // verus!
