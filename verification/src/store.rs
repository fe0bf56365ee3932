//! The executable record store and its verified operations: list, find,
//! insert, update and delete, each contracted against the model in
//! [`crate::model`].

use vstd::prelude::*;

use crate::model::{
    UserView, has_id, index_of_id, find_in, merged, inserted, updated, deleted, lemma_index_of_id,
    lemma_first_index,
};

verus! {

/// One user record.  `id` is the logical key; the store does not enforce its
/// uniqueness, so duplicates may occur, and every scan acts on the first
/// match in insertion order.
pub struct User {
    pub id: String,
    pub name: String,
    pub email: String,
}

impl View for User {
    type V = UserView;

    open spec fn view(&self) -> UserView {
        UserView { id: self.id@, name: self.name@, email: self.email@ }
    }
}

impl DeepView for User {
    type V = UserView;

    open spec fn deep_view(&self) -> UserView {
        self.view()
    }
}

/// A field-by-field copy of a record.
pub fn clone_user(u: &User) -> (r: User)
    ensures
        r@ == u@,
{
    User { id: u.id.clone(), name: u.name.clone(), email: u.email.clone() }
}

/// The records the store starts with when it is seeded.
pub open spec fn initial_users() -> Seq<UserView> {
    seq![
        (UserView { id: "1"@, name: "John Doe"@, email: "john.doe@example.com"@ }),
        (UserView { id: "2"@, name: "Jane Doe"@, email: "jane.doe@example.com"@ }),
    ]
}

/// The record store: user records in insertion order.  Its abstract value is
/// the sequence of the records' abstract values.
pub struct UserStore {
    users: Vec<User>,
}

impl View for UserStore {
    type V = Seq<UserView>;

    closed spec fn view(&self) -> Seq<UserView> {
        self.users.deep_view()
    }
}

impl UserStore {
    /// An empty store.
    pub fn new() -> (r: UserStore)
        ensures
            r@ == Seq::<UserView>::empty(),
    {
        let r = UserStore { users: Vec::new() };
        proof {
            assert(r@ =~= Seq::<UserView>::empty());
        }
        r
    }

    /// A store seeded with the two initial records.
    pub fn with_initial_users() -> (r: UserStore)
        ensures
            r@ == initial_users(),
    {
        let mut users: Vec<User> = Vec::new();
        users.push(
            User {
                id: "1".to_owned(),
                name: "John Doe".to_owned(),
                email: "john.doe@example.com".to_owned(),
            },
        );
        users.push(
            User {
                id: "2".to_owned(),
                name: "Jane Doe".to_owned(),
                email: "jane.doe@example.com".to_owned(),
            },
        );
        let r = UserStore { users };
        proof {
            assert(r@ =~= initial_users());
        }
        r
    }

    /// The position of the first record whose id is `id`, if any record
    /// matches.
    fn index_of(&self, id: &String) -> (r: Option<usize>)
        ensures
            match r {
                Some(k) => has_id(self@, id@) && (k as int) < self@.len() && index_of_id(
                    self@,
                    id@,
                ) == k as int && self@[k as int].id == id@,
                None => !has_id(self@, id@) && index_of_id(self@, id@) == -1,
            },
    {
        let mut k: usize = 0;
        while k < self.users.len()
            invariant
                k <= self.users.len(),
                forall|j: int| 0 <= j < k ==> self@[j].id != id@,
            decreases self.users.len() - k,
        {
            if self.users[k].id == *id {
                proof {
                    assert(self@[k as int] == self.users@[k as int].deep_view());
                    lemma_first_index(self@, id@, k as int);
                    lemma_index_of_id(self@, id@);
                }
                return Some(k);
            }
            k += 1;
        }
        proof {
            assert(!has_id(self@, id@));
            lemma_index_of_id(self@, id@);
        }
        None
    }

    /// A snapshot copy of all records, in insertion order.
    pub fn list(&self) -> (r: Vec<User>)
        ensures
            r.deep_view() == self@,
    {
        let mut out: Vec<User> = Vec::new();
        let mut k: usize = 0;
        while k < self.users.len()
            invariant
                k <= self.users.len(),
                out@.len() == k,
                forall|j: int| 0 <= j < k ==> #[trigger] out@[j].deep_view() == self@[j],
            decreases self.users.len() - k,
        {
            out.push(clone_user(&self.users[k]));
            proof {
                assert(self@[k as int] == self.users@[k as int].deep_view());
            }
            k += 1;
        }
        proof {
            assert(out.deep_view() =~= self@);
        }
        out
    }

    /// A copy of the first record whose id is `id`, or none if no record
    /// matches.
    pub fn find(&self, id: &String) -> (r: Option<User>)
        ensures
            match r {
                Some(u) => find_in(self@, id@) == Some(u@),
                None => !has_id(self@, id@) && find_in(self@, id@) is None,
            },
    {
        match self.index_of(id) {
            Some(k) => {
                proof {
                    assert(self@[k as int] == self.users@[k as int].deep_view());
                }
                Some(clone_user(&self.users[k]))
            },
            None => None,
        }
    }

    /// Appends `user` unconditionally (no uniqueness check) and returns a
    /// copy of the inserted record.
    pub fn insert(&mut self, user: User) -> (r: User)
        ensures
            final(self)@ == inserted(old(self)@, user@),
            r@ == user@,
    {
        let r = clone_user(&user);
        self.users.push(user);
        proof {
            assert(self@ =~= inserted(old(self)@, r@));
        }
        r
    }

    /// Overwrites, on the first record whose id is `id`, exactly the fields
    /// given as `Some`, and returns a copy of the updated record; a store
    /// without a match is left unchanged and none is returned.
    pub fn update(&mut self, id: &String, name: Option<String>, email: Option<String>) -> (r:
        Option<User>)
        ensures
            final(self)@ == updated(old(self)@, id@, name.deep_view(), email.deep_view()),
            r is Some <==> has_id(old(self)@, id@),
            !has_id(old(self)@, id@) ==> final(self)@ == old(self)@,
            r is Some ==> (r->0)@ == merged(
                old(self)@[index_of_id(old(self)@, id@)],
                name.deep_view(),
                email.deep_view(),
            ),
    {
        let ghost nm = name.deep_view();
        let ghost em = email.deep_view();
        match self.index_of(id) {
            Some(k) => {
                proof {
                    assert(old(self)@[k as int] == old(self).users@[k as int].deep_view());
                }
                let cur = &self.users[k];
                let new_id = cur.id.clone();
                let new_name = match name {
                    Some(n) => n,
                    None => cur.name.clone(),
                };
                let new_email = match email {
                    Some(e) => e,
                    None => cur.email.clone(),
                };
                let nu = User { id: new_id, name: new_name, email: new_email };
                let ret = clone_user(&nu);
                self.users.remove(k);
                self.users.insert(k, nu);
                proof {
                    let s0 = old(self).users@;
                    let s1 = s0.remove(k as int);
                    s0.remove_ensures(k as int);
                    s1.insert_ensures(k as int, nu);
                    assert(nu@ == merged(old(self)@[k as int], nm, em));
                    assert forall|j: int|
                        0 <= j < self.users@.len() && j != k as int implies self.users@[j] == s0[
                        j] by {
                        if j > k as int {
                            assert(self.users@[j] == s1[j - 1]);
                            assert(s1[j - 1] == s0[j]);
                        }
                    }
                    assert forall|j: int| 0 <= j < self@.len() implies self@[j] == updated(
                        old(self)@,
                        id@,
                        nm,
                        em,
                    )[j] by {
                        assert(self@[j] == self.users@[j].deep_view());
                        assert(old(self)@[j] == s0[j].deep_view());
                    }
                    assert(self@ =~= updated(old(self)@, id@, nm, em));
                }
                Some(ret)
            },
            None => None,
        }
    }

    /// Removes and returns the first record whose id is `id`; a store
    /// without a match is left unchanged and none is returned.
    pub fn delete(&mut self, id: &String) -> (r: Option<User>)
        ensures
            final(self)@ == deleted(old(self)@, id@),
            r is Some <==> has_id(old(self)@, id@),
            !has_id(old(self)@, id@) ==> final(self)@ == old(self)@,
            r is Some ==> (r->0)@ == old(self)@[index_of_id(old(self)@, id@)],
    {
        match self.index_of(id) {
            Some(k) => {
                proof {
                    assert(old(self)@[k as int] == old(self).users@[k as int].deep_view());
                }
                let u = self.users.remove(k);
                proof {
                    let s0 = old(self).users@;
                    s0.remove_ensures(k as int);
                    old(self)@.remove_ensures(k as int);
                    assert forall|j: int| 0 <= j < self@.len() implies self@[j] == deleted(
                        old(self)@,
                        id@,
                    )[j] by {
                        assert(self@[j] == self.users@[j].deep_view());
                        if j < k as int {
                            assert(old(self)@[j] == s0[j].deep_view());
                        } else {
                            assert(old(self)@[j + 1] == s0[j + 1].deep_view());
                        }
                    }
                    assert(self@ =~= deleted(old(self)@, id@));
                }
                Some(u)
            },
            None => None,
        }
    }
}

} // verus!
