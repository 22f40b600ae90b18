//! Response shapes of the guild-chat relay's HTTP interface.

use vstd::prelude::*;

verus! {

/// Reply to a group message send.
#[derive(Clone, Debug, PartialEq, Eq)]
pub struct SendGroupMessageResponse {
    pub code: u32,
    pub msg: String,
    pub message_id: u64,
}

/// Common envelope of every reply.
#[derive(Clone, Debug, PartialEq, Eq)]
pub struct BaseResponse<T> {
    pub code: u32,
    pub msg: String,
    pub data: T,
}

impl SendGroupMessageResponse {
    pub fn new(code: u32, msg: String, message_id: u64) -> (r: SendGroupMessageResponse)
        ensures
            r.code == code,
            r.msg@ == msg@,
            r.message_id == message_id,
    {
        SendGroupMessageResponse { code, msg, message_id }
    }
}

impl<T> BaseResponse<T> {
    pub fn new(code: u32, msg: String, data: T) -> (r: BaseResponse<T>)
        ensures
            r.code == code,
            r.msg@ == msg@,
            r.data == data,
    {
        BaseResponse { code, msg, data }
    }
}

} // verus!
