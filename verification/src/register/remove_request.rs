use vstd::prelude::*;

verus! {

/// The query of a remove request.
#[derive(Debug)]
pub struct RemoveRequest {
    pub id: String,
    pub key: String,
    pub host_key: String,
}

/// A remove request as a value.
pub struct RemoveRequestView {
    pub id: Seq<char>,
    pub key: Seq<char>,
    pub host_key: Seq<char>,
}

impl View for RemoveRequest {
    type V = RemoveRequestView;

    open spec fn view(&self) -> RemoveRequestView {
        RemoveRequestView { id: self.id@, key: self.key@, host_key: self.host_key@ }
    }
}

} // verus!
