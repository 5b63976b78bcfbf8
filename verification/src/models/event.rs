use vstd::prelude::*;

verus! {

/// A recorded happening inside a fictional universe.
#[derive(Debug)]
pub struct Event {
    pub id: i64,
    pub name: String,
    pub description: String,
    pub reference: String,
    pub image: Option<String>,
    pub thumbnail: Option<String>,
    pub author_id: i64,
}

/// The mathematical content of an [`Event`]: every API-visible field,
/// with strings abstracted to character sequences.
#[verifier::ext_equal]
pub ghost struct EventView {
    pub id: int,
    pub name: Seq<char>,
    pub description: Seq<char>,
    pub reference: Seq<char>,
    pub image: Option<Seq<char>>,
    pub thumbnail: Option<Seq<char>>,
    pub author_id: int,
}

pub open spec fn opt_string_view(s: Option<String>) -> Option<Seq<char>> {
    match s {
        Some(v) => Some(v@),
        None => None,
    }
}

/// An exact copy of an optional string.
pub fn clone_opt_string(s: &Option<String>) -> (r: Option<String>)
    ensures
        r == *s,
{
    match s {
        Some(v) => Some(v.clone()),
        None => None,
    }
}

impl Clone for Event {
    /// An exact copy: every field of the copy equals the original's.
    fn clone(&self) -> (r: Self)
        ensures
            r == *self,
    {
        Event {
            id: self.id,
            name: self.name.clone(),
            description: self.description.clone(),
            reference: self.reference.clone(),
            image: clone_opt_string(&self.image),
            thumbnail: clone_opt_string(&self.thumbnail),
            author_id: self.author_id,
        }
    }
}

impl View for Event {
    type V = EventView;

    open spec fn view(&self) -> EventView {
        EventView {
            id: self.id as int,
            name: self.name@,
            description: self.description@,
            reference: self.reference@,
            image: opt_string_view(self.image),
            thumbnail: opt_string_view(self.thumbnail),
            author_id: self.author_id as int,
        }
    }
}

} // verus!
