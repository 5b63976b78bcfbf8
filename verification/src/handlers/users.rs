//! The user endpoints' decision core: creation, field-by-field optional
//! updates, and deletion against a store of users.

use vstd::prelude::*;
use crate::error::ApiError;
use crate::models::event::{clone_opt_string, opt_string_view};
use crate::models::user::{User, UserView};

verus! {

/// Body of a create-user request.
#[derive(Debug)]
pub struct PostUser {
    pub nickname: String,
    pub description: Option<String>,
}

/// The mathematical content of a [`PostUser`].
#[verifier::ext_equal]
pub ghost struct PostUserView {
    pub nickname: Seq<char>,
    pub description: Option<Seq<char>>,
}

impl View for PostUser {
    type V = PostUserView;

    open spec fn view(&self) -> PostUserView {
        PostUserView {
            nickname: self.nickname@,
            description: opt_string_view(self.description),
        }
    }
}

/// The user a create request produces once the store assigns `id`.
pub open spec fn user_from_post(p: PostUserView, id: int) -> UserView {
    UserView { id: id, nickname: p.nickname, description: p.description }
}

/// Body of an update-user request: only supplied fields are changed.
#[derive(Debug)]
pub struct UpdateUser {
    pub nickname: Option<String>,
    pub description: Option<String>,
}

/// The mathematical content of an [`UpdateUser`].
#[verifier::ext_equal]
pub ghost struct UpdateUserView {
    pub nickname: Option<Seq<char>>,
    pub description: Option<Seq<char>>,
}

impl View for UpdateUser {
    type V = UpdateUserView;

    open spec fn view(&self) -> UpdateUserView {
        UpdateUserView {
            nickname: opt_string_view(self.nickname),
            description: opt_string_view(self.description),
        }
    }
}

/// Whether the update supplies at least one field.
pub open spec fn spec_has_user_update_fields(u: UpdateUserView) -> bool {
    u.nickname is Some || u.description is Some
}

/// The user after applying the update: supplied fields replaced, the
/// rest (and the key) unchanged.
pub open spec fn spec_apply_user_update(e: UserView, u: UpdateUserView) -> UserView {
    UserView {
        id: e.id,
        nickname: if u.nickname is Some { u.nickname->0 } else { e.nickname },
        description: if u.description is Some { u.description } else { e.description },
    }
}

/// A column an update can set.
#[derive(Clone, Copy, Debug, PartialEq, Eq, Structural)]
pub enum UserColumn {
    Nickname,
    Description,
}

/// The `(column, value)` pairs the update accumulates, in column order.
pub open spec fn spec_user_assignments(u: UpdateUserView) -> Seq<(UserColumn, Seq<char>)> {
    (if u.nickname is Some {
        seq![(UserColumn::Nickname, u.nickname->0)]
    } else {
        Seq::empty()
    }) + (if u.description is Some {
        seq![(UserColumn::Description, u.description->0)]
    } else {
        Seq::empty()
    })
}

/// The check sequence of a user update, in the order the handler
/// performs it: at least one field must be supplied (else 400), and the
/// row must exist (else 404). `None` means the write applies.
pub open spec fn spec_user_update_check(
    s: Seq<UserView>,
    id: int,
    u: UpdateUserView,
) -> Option<ApiError> {
    if !spec_has_user_update_fields(u) {
        Some(ApiError::BadRequest)
    } else if !spec_has_user(s, id) {
        Some(ApiError::NotFound)
    } else {
        None
    }
}

impl UpdateUser {
    /// Whether at least one updatable field is supplied.
    pub fn has_update(&self) -> (r: bool)
        ensures
            r == spec_has_user_update_fields(self@),
    {
        self.nickname.is_some() || self.description.is_some()
    }

    /// Accumulate the `(column, value)` pairs of the supplied fields, in
    /// column order; empty exactly when no field was supplied.
    pub fn assignments(&self) -> (v: Vec<(UserColumn, String)>)
        ensures
            v@.map_values(|p: (UserColumn, String)| (p.0, p.1@)) == spec_user_assignments(self@),
            v@.len() == 0 <==> !spec_has_user_update_fields(self@),
    {
        let mut v: Vec<(UserColumn, String)> = Vec::new();
        match &self.nickname {
            Some(s) => v.push((UserColumn::Nickname, s.clone())),
            None => (),
        }
        match &self.description {
            Some(s) => v.push((UserColumn::Description, s.clone())),
            None => (),
        }
        proof {
            assert(v@.map_values(|p: (UserColumn, String)| (p.0, p.1@)) =~= spec_user_assignments(
                self@,
            ));
        }
        v
    }

    /// Apply the update to a user, replacing exactly the supplied fields.
    pub fn apply_to(&self, e: &User) -> (r: User)
        ensures
            r@ == spec_apply_user_update(e@, self@),
    {
        User {
            id: e.id,
            nickname: match &self.nickname {
                Some(s) => s.clone(),
                None => e.nickname.clone(),
            },
            description: match &self.description {
                Some(s) => Some(s.clone()),
                None => clone_opt_string(&e.description),
            },
        }
    }
}

pub open spec fn spec_has_user(s: Seq<UserView>, id: int) -> bool {
    exists|i: int| 0 <= i < s.len() && s[i].id == id
}

/// The index of the row with key `id` (unique in a well-formed store).
pub open spec fn spec_user_index(s: Seq<UserView>, id: int) -> int {
    choose|i: int| 0 <= i < s.len() && s[i].id == id
}

/// The users table, modeled in memory: rows plus the id counter the
/// store assigns from.
pub struct UserStore {
    pub users: Vec<User>,
    pub next_id: i64,
}

impl View for UserStore {
    type V = Seq<UserView>;

    open spec fn view(&self) -> Seq<UserView> {
        self.users@.map_values(|u: User| u@)
    }
}

impl UserStore {
    /// Row keys are unique and below the id counter.
    pub open spec fn wf(&self) -> bool {
        &&& forall|i: int, j: int|
            0 <= i < self@.len() && 0 <= j < self@.len() && i != j ==> self@[i].id != self@[j].id
        &&& forall|i: int| 0 <= i < self@.len() ==> (#[trigger] self@[i]).id < self.next_id
        &&& 1 <= self.next_id
    }

    /// An empty store, its id counter at 1.
    pub fn new() -> (s: UserStore)
        ensures
            s@ == Seq::<UserView>::empty(),
            s.next_id == 1,
            s.wf(),
    {
        let s = UserStore { users: Vec::new(), next_id: 1 };
        proof {
            assert(s@ =~= Seq::<UserView>::empty());
        }
        s
    }

    /// The index of the row with key `id`, if any.
    fn find(&self, id: i64) -> (r: Option<usize>)
        requires
            self.wf(),
        ensures
            match r {
                Some(i) => {
                    &&& i < self@.len()
                    &&& self@[i as int].id == id as int
                    &&& spec_has_user(self@, id as int)
                    &&& spec_user_index(self@, id as int) == i as int
                },
                None => !spec_has_user(self@, id as int),
            },
    {
        let mut i: usize = 0;
        while i < self.users.len()
            invariant
                i <= self.users.len(),
                self.wf(),
                self@.len() == self.users.len(),
                forall|j: int| 0 <= j < i ==> self@[j].id != id as int,
            decreases self.users.len() - i,
        {
            if self.users[i].id == id {
                proof {
                    let k = spec_user_index(self@, id as int);
                    assert(self@[i as int].id == id as int);
                    assert(0 <= k < self@.len() && self@[k].id == id as int);
                }
                return Some(i);
            }
            i = i + 1;
        }
        proof {
            if spec_has_user(self@, id as int) {
                let k = choose|k: int| 0 <= k < self@.len() && self@[k].id == id as int;
                assert(self@[k].id != id as int);
            }
        }
        None
    }

    /// Create a user from the request body, assigning the next id.
    pub fn create_user(&mut self, payload: PostUser) -> (r: Result<User, ApiError>)
        requires
            old(self).wf(),
        ensures
            final(self).wf(),
            match r {
                Ok(u) => {
                    &&& u@ == user_from_post(payload@, old(self).next_id as int)
                    &&& final(self)@ == old(self)@.push(u@)
                    &&& final(self).next_id == old(self).next_id + 1
                },
                Err(e) => {
                    &&& e == ApiError::InternalError
                    &&& old(self).next_id == i64::MAX
                    &&& final(self)@ == old(self)@
                    &&& final(self).next_id == old(self).next_id
                },
            },
    {
        if self.next_id == i64::MAX {
            return Err(ApiError::InternalError);
        }
        let ghost old_view = self@;
        let u = User {
            id: self.next_id,
            nickname: payload.nickname,
            description: payload.description,
        };
        let stored = u.clone();
        self.users.push(stored);
        self.next_id = self.next_id + 1;
        proof {
            assert(self@ =~= old_view.push(u@));
            assert forall|p: int, q: int|
                0 <= p < self@.len() && 0 <= q < self@.len() && p != q
                implies self@[p].id != self@[q].id by {
                if p < old_view.len() && q < old_view.len() {
                    assert(self@[p] == old_view[p]);
                    assert(self@[q] == old_view[q]);
                } else if p == old_view.len() {
                    assert(self@[q] == old_view[q]);
                } else {
                    assert(self@[p] == old_view[p]);
                }
            }
            assert forall|p: int| 0 <= p < self@.len()
                implies (#[trigger] self@[p]).id < self.next_id by {
                if p < old_view.len() {
                    assert(self@[p] == old_view[p]);
                }
            }
        }
        Ok(u)
    }

    /// The user with key `id`, if any.
    pub fn get_user_by_id(&self, id: i64) -> (r: Option<User>)
        requires
            self.wf(),
        ensures
            match r {
                Some(u) => {
                    &&& spec_has_user(self@, id as int)
                    &&& u@ == self@[spec_user_index(self@, id as int)]
                },
                None => !spec_has_user(self@, id as int),
            },
    {
        match self.find(id) {
            None => None,
            Some(i) => Some(self.users[i].clone()),
        }
    }

    /// Delete the row with key `id`; 404 when no row was deleted.
    pub fn delete_user_by_id(&mut self, id: i64) -> (r: Result<(), ApiError>)
        requires
            old(self).wf(),
        ensures
            final(self).wf(),
            final(self).next_id == old(self).next_id,
            match r {
                Ok(()) => {
                    &&& spec_has_user(old(self)@, id as int)
                    &&& final(self)@ == old(self)@.remove(spec_user_index(old(self)@, id as int))
                },
                Err(e) => {
                    &&& e == ApiError::NotFound
                    &&& !spec_has_user(old(self)@, id as int)
                    &&& final(self)@ == old(self)@
                },
            },
    {
        match self.find(id) {
            None => Err(ApiError::NotFound),
            Some(i) => {
                let ghost old_view = self@;
                self.users.remove(i);
                proof {
                    assert(self@ =~= old_view.remove(i as int));
                    assert forall|p: int, q: int|
                        0 <= p < self@.len() && 0 <= q < self@.len() && p != q
                        implies self@[p].id != self@[q].id by {
                        let p0 = if p < i as int { p } else { p + 1 };
                        let q0 = if q < i as int { q } else { q + 1 };
                        assert(self@[p] == old_view[p0]);
                        assert(self@[q] == old_view[q0]);
                    }
                    assert forall|p: int| 0 <= p < self@.len()
                        implies (#[trigger] self@[p]).id < self.next_id by {
                        let p0 = if p < i as int { p } else { p + 1 };
                        assert(self@[p] == old_view[p0]);
                    }
                }
                Ok(())
            },
        }
    }

    /// Field-by-field optional update of a user: an empty update is a bad
    /// request; the row must exist; the supplied fields are applied and
    /// the updated row returned. Every refusal leaves the store exactly
    /// as it was.
    pub fn update_user(&mut self, id: i64, payload: &UpdateUser) -> (r: Result<User, ApiError>)
        requires
            old(self).wf(),
        ensures
            final(self).wf(),
            final(self).next_id == old(self).next_id,
            match r {
                Ok(u) => {
                    &&& spec_user_update_check(old(self)@, id as int, payload@) is None
                    &&& {
                        let i = spec_user_index(old(self)@, id as int);
                        &&& u@ == spec_apply_user_update(old(self)@[i], payload@)
                        &&& final(self)@ == old(self)@.update(i, u@)
                    }
                },
                Err(e) => {
                    &&& Some(e) == spec_user_update_check(old(self)@, id as int, payload@)
                    &&& final(self)@ == old(self)@
                },
            },
    {
        if !payload.has_update() {
            return Err(ApiError::BadRequest);
        }
        match self.find(id) {
            None => Err(ApiError::NotFound),
            Some(i) => {
                let ghost old_view = self@;
                let updated = payload.apply_to(&self.users[i]);
                let stored = updated.clone();
                self.users[i] = stored;
                proof {
                    assert(self@ =~= old_view.update(i as int, updated@));
                    assert forall|p: int, q: int|
                        0 <= p < self@.len() && 0 <= q < self@.len() && p != q
                        implies self@[p].id != self@[q].id by {
                        assert(self@[p].id == old_view[p].id);
                        assert(self@[q].id == old_view[q].id);
                    }
                    assert forall|p: int| 0 <= p < self@.len()
                        implies (#[trigger] self@[p]).id < self.next_id by {
                        assert(self@[p].id == old_view[p].id);
                    }
                }
                Ok(updated)
            },
        }
    }
}

} // verus!
