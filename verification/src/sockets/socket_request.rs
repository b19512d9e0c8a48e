use crate::text::text_of;
use vstd::prelude::*;

verus! {

/// The query of a connect request.
#[derive(Debug)]
pub struct SocketRequest {
    pub key: String,
    pub id: String,
    pub sock_type: Option<String>,
}

/// A connect request as a value.
pub struct SocketRequestView {
    pub key: Seq<char>,
    pub id: Seq<char>,
    pub sock_type: Option<Seq<char>>,
}

impl View for SocketRequest {
    type V = SocketRequestView;

    open spec fn view(&self) -> SocketRequestView {
        SocketRequestView { key: self.key@, id: self.id@, sock_type: text_of(self.sock_type) }
    }
}

} // verus!
