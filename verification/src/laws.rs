//! Laws that relate the store's operations to one another, stated over the
//! model in [`crate::model`] that the operations' contracts use.

use vstd::prelude::*;

use crate::model::{
    UserView, has_id, index_of_id, count_id, find_in, inserted, updated, deleted,
    lemma_index_of_id, lemma_first_index, lemma_count_at_least_two,
};

verus! {

/// After inserting a record, the listed sequence contains it, whatever the
/// store held before.
pub proof fn lemma_list_after_insert_contains(s: Seq<UserView>, u: UserView)
    ensures
        inserted(s, u).contains(u),
{
    assert(inserted(s, u)[s.len() as int] == u);
}

/// After deleting an id that occurs at most once, a find for that id
/// returns none.  (An id that occurs more than once still occurs after the
/// delete, since only the first match is removed.)
pub proof fn lemma_find_after_delete_none(s: Seq<UserView>, id: Seq<char>)
    requires
        count_id(s, id) <= 1,
    ensures
        find_in(deleted(s, id), id) is None,
{
    lemma_index_of_id(s, id);
    if has_id(s, id) {
        let i = index_of_id(s, id);
        let t = s.remove(i);
        s.remove_ensures(i);
        assert forall|j: int| 0 <= j < t.len() implies t[j].id != id by {
            if j >= i && t[j].id == id {
                lemma_count_at_least_two(s, id, i, j + 1);
            }
        }
        assert(!has_id(t, id));
    }
}

/// Updating only the name changes no record's id or email, leaves every
/// record but the first match entirely unchanged, and gives the first match
/// the new name.
pub proof fn lemma_update_changes_only_name(s: Seq<UserView>, id: Seq<char>, n: Seq<char>)
    ensures
        updated(s, id, Some(n), None).len() == s.len(),
        forall|j: int| 0 <= j < s.len() ==> #[trigger] updated(s, id, Some(n), None)[j].id == s[
            j].id,
        forall|j: int| 0 <= j < s.len() ==> #[trigger] updated(s, id, Some(n), None)[j].email == s[
            j].email,
        forall|j: int|
            0 <= j < s.len() && j != index_of_id(s, id) ==> #[trigger] updated(
                s,
                id,
                Some(n),
                None,
            )[j] == s[j],
        has_id(s, id) ==> updated(s, id, Some(n), None)[index_of_id(s, id)].name == n,
{
    lemma_index_of_id(s, id);
}

/// An update, delete or find on an id that no record carries finds nothing
/// and leaves the store unchanged.
pub proof fn lemma_missing_id_leaves_store(
    s: Seq<UserView>,
    id: Seq<char>,
    name: Option<Seq<char>>,
    email: Option<Seq<char>>,
)
    requires
        !has_id(s, id),
    ensures
        find_in(s, id) is None,
        updated(s, id, name, email) == s,
        deleted(s, id) == s,
{
}

/// Inserting a record whose id is not yet present and then finding that id
/// returns exactly the inserted record.
pub proof fn lemma_insert_then_find(s: Seq<UserView>, u: UserView)
    requires
        !has_id(s, u.id),
    ensures
        find_in(inserted(s, u), u.id) == Some(u),
{
    let t = inserted(s, u);
    assert forall|j: int| 0 <= j < s.len() implies t[j].id != u.id by {
        assert(t[j] == s[j]);
    }
    lemma_first_index(t, u.id, s.len() as int);
    lemma_index_of_id(t, u.id);
}

} // verus!
