use crate::text::text_of;
use vstd::prelude::*;

verus! {

/// The query of a register request.
#[derive(Debug)]
pub struct RegisterRequest {
    pub key: String,
    pub host_key: String,
    pub reg_type: String,
    pub id_req: Option<String>,
}

/// A register request as a value.
pub struct RegisterRequestView {
    pub key: Seq<char>,
    pub host_key: Seq<char>,
    pub reg_type: Seq<char>,
    pub id_req: Option<Seq<char>>,
}

impl View for RegisterRequest {
    type V = RegisterRequestView;

    open spec fn view(&self) -> RegisterRequestView {
        RegisterRequestView {
            key: self.key@,
            host_key: self.host_key@,
            reg_type: self.reg_type@,
            id_req: text_of(self.id_req),
        }
    }
}

} // verus!
