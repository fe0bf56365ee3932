//! The mathematical model of the record store: a user record is a triple of
//! character sequences, the store is a sequence of such records, and each
//! operation is a function on that sequence.

use vstd::prelude::*;

verus! {

/// The abstract value of one user record.
#[verifier::ext_equal]
pub ghost struct UserView {
    pub id: Seq<char>,
    pub name: Seq<char>,
    pub email: Seq<char>,
}

/// Whether some record in `s` carries the id `id`.
pub open spec fn has_id(s: Seq<UserView>, id: Seq<char>) -> bool {
    exists|i: int| 0 <= i < s.len() && s[i].id == id
}

/// The index of the first record in `s` whose id is `id`, or `-1` if there
/// is none.
pub open spec fn index_of_id(s: Seq<UserView>, id: Seq<char>) -> int
    decreases s.len(),
{
    if s.len() == 0 {
        -1
    } else if s[0].id == id {
        0
    } else if index_of_id(s.drop_first(), id) < 0 {
        -1
    } else {
        1 + index_of_id(s.drop_first(), id)
    }
}

/// How many records in `s` carry the id `id`.
pub open spec fn count_id(s: Seq<UserView>, id: Seq<char>) -> nat
    decreases s.len(),
{
    if s.len() == 0 {
        0
    } else {
        (if s[0].id == id {
            1nat
        } else {
            0nat
        }) + count_id(s.drop_first(), id)
    }
}

/// The record `u` with `name` and `email` overwritten by the optional new
/// values: a field given as `Some` replaces the old value, a field given as
/// `None` is kept.
pub open spec fn merged(u: UserView, name: Option<Seq<char>>, email: Option<Seq<char>>) -> UserView {
    UserView {
        id: u.id,
        name: if name is Some {
            name->0
        } else {
            u.name
        },
        email: if email is Some {
            email->0
        } else {
            u.email
        },
    }
}

/// The store after appending `u`.
pub open spec fn inserted(s: Seq<UserView>, u: UserView) -> Seq<UserView> {
    s.push(u)
}

/// The first record of `s` with id `id`, if there is one.
pub open spec fn find_in(s: Seq<UserView>, id: Seq<char>) -> Option<UserView> {
    if has_id(s, id) {
        Some(s[index_of_id(s, id)])
    } else {
        None
    }
}

/// The store after an update of `id`: the first matching record has its
/// optional fields merged in place; a store without a match is unchanged.
pub open spec fn updated(
    s: Seq<UserView>,
    id: Seq<char>,
    name: Option<Seq<char>>,
    email: Option<Seq<char>>,
) -> Seq<UserView> {
    if has_id(s, id) {
        s.update(index_of_id(s, id), merged(s[index_of_id(s, id)], name, email))
    } else {
        s
    }
}

/// The store after a delete of `id`: the first matching record is removed;
/// a store without a match is unchanged.
pub open spec fn deleted(s: Seq<UserView>, id: Seq<char>) -> Seq<UserView> {
    if has_id(s, id) {
        s.remove(index_of_id(s, id))
    } else {
        s
    }
}

/// `index_of_id` is a valid index exactly when some record matches, it
/// points at a matching record, and no earlier record matches.
pub proof fn lemma_index_of_id(s: Seq<UserView>, id: Seq<char>)
    ensures
        has_id(s, id) <==> 0 <= index_of_id(s, id) < s.len(),
        !has_id(s, id) <==> index_of_id(s, id) == -1,
        has_id(s, id) ==> s[index_of_id(s, id)].id == id,
        forall|j: int| 0 <= j < index_of_id(s, id) ==> s[j].id != id,
    decreases s.len(),
{
    if s.len() == 0 {
    } else if s[0].id == id {
    } else {
        let t = s.drop_first();
        lemma_index_of_id(t, id);
        assert forall|i: int| 0 <= i < s.len() && s[i].id == id implies has_id(t, id) by {
            assert(t[i - 1] == s[i]);
        }
        if has_id(t, id) {
            let k = index_of_id(t, id);
            assert(s[k + 1] == t[k]);
            assert forall|j: int| 0 <= j < index_of_id(s, id) implies s[j].id != id by {
                if j > 0 {
                    assert(t[j - 1] == s[j]);
                }
            }
        }
    }
}

/// If `s[k]` matches `id` and no earlier record does, then `k` is the first
/// matching index.
pub proof fn lemma_first_index(s: Seq<UserView>, id: Seq<char>, k: int)
    requires
        0 <= k < s.len(),
        s[k].id == id,
        forall|j: int| 0 <= j < k ==> s[j].id != id,
    ensures
        index_of_id(s, id) == k,
{
    lemma_index_of_id(s, id);
    assert(has_id(s, id));
    let i = index_of_id(s, id);
    if i < k {
        assert(s[i].id != id);
    } else if i > k {
        assert(s[k].id != id);
    }
}

/// A matching record makes the count positive.
pub proof fn lemma_count_at_least_one(s: Seq<UserView>, id: Seq<char>, i: int)
    requires
        0 <= i < s.len(),
        s[i].id == id,
    ensures
        count_id(s, id) >= 1,
    decreases s.len(),
{
    if i == 0 {
    } else {
        assert(s.drop_first()[i - 1] == s[i]);
        lemma_count_at_least_one(s.drop_first(), id, i - 1);
    }
}

/// Two distinct matching records make the count at least two.
pub proof fn lemma_count_at_least_two(s: Seq<UserView>, id: Seq<char>, i: int, j: int)
    requires
        0 <= i < j < s.len(),
        s[i].id == id,
        s[j].id == id,
    ensures
        count_id(s, id) >= 2,
    decreases s.len(),
{
    let t = s.drop_first();
    if i == 0 {
        assert(t[j - 1] == s[j]);
        lemma_count_at_least_one(t, id, j - 1);
    } else {
        assert(t[i - 1] == s[i]);
        assert(t[j - 1] == s[j]);
        lemma_count_at_least_two(t, id, i - 1, j - 1);
    }
}

} // verus!
