use vstd::prelude::*;
use crate::models::event::opt_string_view;

verus! {

/// An author of events and timelines.
#[derive(Debug)]
pub struct User {
    pub id: i64,
    pub nickname: String,
    pub description: Option<String>,
}

impl Clone for User {
    /// An exact copy: every field of the copy equals the original's.
    fn clone(&self) -> (r: Self)
        ensures
            r == *self,
    {
        User {
            id: self.id,
            nickname: self.nickname.clone(),
            description: crate::models::event::clone_opt_string(&self.description),
        }
    }
}

/// The mathematical content of a [`User`].
#[verifier::ext_equal]
pub ghost struct UserView {
    pub id: int,
    pub nickname: Seq<char>,
    pub description: Option<Seq<char>>,
}

impl View for User {
    type V = UserView;

    open spec fn view(&self) -> UserView {
        UserView {
            id: self.id as int,
            nickname: self.nickname@,
            description: opt_string_view(self.description),
        }
    }
}

} // verus!
