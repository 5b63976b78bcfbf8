use vstd::prelude::*;

verus! {

/// A divergent copy of a region of a timeline.
#[derive(Debug)]
pub struct Branch {
    pub id: i64,
    pub author_id: i64,
    pub original_timeline_id: i64,
    pub description: String,
    pub area_start: u64,
    pub area_end: u64,
}

impl Clone for Branch {
    /// An exact copy: every field of the copy equals the original's.
    fn clone(&self) -> (r: Self)
        ensures
            r == *self,
    {
        Branch {
            id: self.id,
            author_id: self.author_id,
            original_timeline_id: self.original_timeline_id,
            description: self.description.clone(),
            area_start: self.area_start,
            area_end: self.area_end,
        }
    }
}

/// The mathematical content of a [`Branch`].
#[verifier::ext_equal]
pub ghost struct BranchView {
    pub id: int,
    pub author_id: int,
    pub original_timeline_id: int,
    pub description: Seq<char>,
    pub area_start: int,
    pub area_end: int,
}

impl View for Branch {
    type V = BranchView;

    open spec fn view(&self) -> BranchView {
        BranchView {
            id: self.id as int,
            author_id: self.author_id as int,
            original_timeline_id: self.original_timeline_id as int,
            description: self.description@,
            area_start: self.area_start as int,
            area_end: self.area_end as int,
        }
    }
}

} // verus!
