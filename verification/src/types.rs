//! Failures and replies.

use vstd::prelude::*;
use vstd::string::*;

verus! {

/// Why an operation was refused.
#[derive(Clone, Copy, Debug, PartialEq, Eq, Structural)]
pub enum Failure {
    /// A payload is no JSON text of the expected shape.
    Malformed,
    /// A price is zero or negative.
    PriceNotPositive,
    /// A figure is unsound or leaves the range that the records can hold.
    OutOfRange,
    /// The order's weight has been measured before.
    AlreadyMeasured,
    /// The order holds no product to which a weight could be attributed.
    NoProduct,
    /// The stock holds less than is wanted.
    InsufficientStock,
    /// The stock has no record of the wanted SKU.
    MissingSku,
    /// The named column is none that can be updated.
    InvalidColumn,
    /// The name of an imported file holds no date.
    NoDate,
}

/// A refusal of the engine. Nothing has been changed where one is returned.
#[derive(Clone, Copy, Debug, PartialEq, Eq, Structural)]
pub struct AeError(pub Failure);

/// `serde_json::Value`: the data of a reply. It is carried through and
/// never looked into.
#[verifier::external_type_specification]
#[verifier::external_body]
pub struct ExJsonValue(serde_json::Value);

/// A reply to a request: status 0 for success and 1 for a refusal, a
/// message, and the data that is handed back.
#[derive(Clone, Debug)]
pub struct Res {
    pub status: usize,
    pub msg: String,
    pub data: Option<serde_json::Value>,
}

impl Default for Res {
    fn default() -> (res: Res)
        ensures
            res.status == 0,
            res.msg@.len() == 0,
            res.data.is_none(),
    {
        Res { status: 0, msg: String::new(), data: None }
    }
}

impl Res {
    /// An empty reply of success.
    pub fn new() -> (res: Res)
        ensures
            res.status == 0,
            res.msg@.len() == 0,
            res.data.is_none(),
    {
        Res { status: 0, msg: String::new(), data: None }
    }

    /// The reply with another status.
    pub fn status(self, status: usize) -> (res: Res)
        ensures
            res.status == status,
            res.msg == self.msg,
            res.data == self.data,
    {
        let mut res = self;
        res.status = status;
        res
    }

    /// The reply with another message.
    pub fn msg(self, msg: String) -> (res: Res)
        ensures
            res.status == self.status,
            res.msg == msg,
            res.data == self.data,
    {
        let mut res = self;
        res.msg = msg;
        res
    }

    /// The reply with other data.
    pub fn data(self, data: Option<serde_json::Value>) -> (res: Res)
        ensures
            res.status == self.status,
            res.msg == self.msg,
            res.data == data,
    {
        let mut res = self;
        res.data = data;
        res
    }
}

/// The reply of success that hands back `data`.
pub fn ok(data: serde_json::Value) -> (reply: Result<Res, AeError>)
    ensures
        reply matches Ok(res) && res.status == 0 && res.msg@ == "success"@ && res.data == Some(
            data,
        ),
{
    Ok(Res::new().msg(String::from_str("success")).data(Some(data)))
}

/// The reply that refuses a request for `reason`.
pub fn err(reason: String) -> (reply: Result<Res, AeError>)
    ensures
        reply matches Ok(res) && res.status == 1 && res.msg == reason && res.data.is_none(),
{
    Ok(Res::new().status(1).msg(reason))
}

} // verus!
