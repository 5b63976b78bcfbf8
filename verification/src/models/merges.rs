use vstd::prelude::*;

verus! {

/// The immutable record of one successful timeline merge.
#[derive(Debug)]
pub struct TimelineMerge {
    pub id: i64,
    pub source_timeline_id: i64,
    pub target_timeline_id: i64,
    pub merged_at: String,
}

impl Clone for TimelineMerge {
    /// An exact copy: every field of the copy equals the original's.
    fn clone(&self) -> (r: Self)
        ensures
            r == *self,
    {
        TimelineMerge {
            id: self.id,
            source_timeline_id: self.source_timeline_id,
            target_timeline_id: self.target_timeline_id,
            merged_at: self.merged_at.clone(),
        }
    }
}

/// The mathematical content of a [`TimelineMerge`].
#[verifier::ext_equal]
pub ghost struct TimelineMergeView {
    pub id: int,
    pub source_timeline_id: int,
    pub target_timeline_id: int,
    pub merged_at: Seq<char>,
}

impl View for TimelineMerge {
    type V = TimelineMergeView;

    open spec fn view(&self) -> TimelineMergeView {
        TimelineMergeView {
            id: self.id as int,
            source_timeline_id: self.source_timeline_id as int,
            target_timeline_id: self.target_timeline_id as int,
            merged_at: self.merged_at@,
        }
    }
}

} // verus!
