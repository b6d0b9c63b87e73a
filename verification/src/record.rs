use vstd::prelude::*;

verus! {

/// One named, typed member of a record declaration: the member's name and the
/// textual form of its type expression, in declaration order within the record.
pub struct Member {
    pub name: String,
    pub ty: String,
}

/// Mathematical view of a member: both parts as character sequences.
pub struct MemberView {
    pub name: Seq<char>,
    pub ty: Seq<char>,
}

impl View for Member {
    type V = MemberView;

    open spec fn view(&self) -> MemberView {
        MemberView { name: self.name@, ty: self.ty@ }
    }
}

/// A record declaration: its name and its members in declaration order.
pub struct SourceRecord {
    pub name: String,
    pub members: Vec<Member>,
}

/// Mathematical view of a record: name and members as sequences.
pub struct RecordView {
    pub name: Seq<char>,
    pub members: Seq<MemberView>,
}

/// The views of a sequence of members, in the same order.
pub open spec fn members_view(ms: Seq<Member>) -> Seq<MemberView> {
    ms.map_values(|m: Member| m@)
}

impl View for SourceRecord {
    type V = RecordView;

    open spec fn view(&self) -> RecordView {
        RecordView { name: self.name@, members: members_view(self.members@) }
    }
}

} // verus!
