//! Calls that follow a transaction: the call that a transfer or an approval
//! may carry to the receiving canister, and the notice to a receiver that
//! tokens arrived.

use vstd::prelude::*;
use vstd::string::StringExecFns;
use crate::codec::{
    call_reply_decoding, check_plain_reply_header, debug_string, debug_text, decode_call_reply,
    has_plain_reply_header,
};
use crate::holder::Holder;
use crate::principal::PrincipalId;

verus! {

/// Method that a canister answers with its candid interface.
pub const INTERFACE_METHOD: &'static str = "__get_candid_interface_tmp_hack";

/// Method that a receiving canister is notified through.
pub const NOTIFY_METHOD: &'static str = "on_token_received";

/// Signature that a receiving canister's interface must hold to be notified.
pub const NOTIFY_SIGNATURE: &'static str = "on_token_received:(TransferFrom,nat)->(bool)query";

/// Why the platform rejected a call.
#[derive(Clone, Copy, Debug, PartialEq, Eq)]
pub enum RejectCode {
    NoError,
    SysFatal,
    SysTransient,
    DestinationInvalid,
    CanisterReject,
    CanisterError,
    Unknown,
}

/// The name of a reject code, as its debug text spells it.
pub open spec fn reject_code_name(c: RejectCode) -> Seq<char> {
    match c {
        RejectCode::NoError => "NoError"@,
        RejectCode::SysFatal => "SysFatal"@,
        RejectCode::SysTransient => "SysTransient"@,
        RejectCode::DestinationInvalid => "DestinationInvalid"@,
        RejectCode::CanisterReject => "CanisterReject"@,
        RejectCode::CanisterError => "CanisterError"@,
        RejectCode::Unknown => "Unknown"@,
    }
}

impl RejectCode {
    pub fn name(&self) -> (s: String)
        ensures
            s@ == reject_code_name(*self),
    {
        match self {
            RejectCode::NoError => String::from_str("NoError"),
            RejectCode::SysFatal => String::from_str("SysFatal"),
            RejectCode::SysTransient => String::from_str("SysTransient"),
            RejectCode::DestinationInvalid => String::from_str("DestinationInvalid"),
            RejectCode::CanisterReject => String::from_str("CanisterReject"),
            RejectCode::CanisterError => String::from_str("CanisterError"),
            RejectCode::Unknown => String::from_str("Unknown"),
        }
    }
}

/// What a call to another canister gave back.
#[derive(Debug)]
pub enum CallReply {
    /// The reply's bytes.
    Replied(Vec<u8>),
    /// The call was rejected, with this code and message.
    Rejected(RejectCode, String),
}

/// The canister to call after a transaction: the receiver's principal, where
/// the receiver is a principal that names a canister (`is_canister`; not read
/// for an account).
pub fn call_target(receiver: &Holder, is_canister: bool) -> (t: Option<PrincipalId>)
    ensures
        match t {
            Some(c) => receiver@.0 && is_canister && c@ == receiver@.1,
            None => !receiver@.0 || !is_canister,
        },
{
    match receiver {
        Holder::Principal(cid) => {
            if is_canister {
                Some(cid.duplicate())
            } else {
                None
            }
        },
        Holder::Account(_) => None,
    }
}

/// A call that a request carries: the method to call on the receiver, and
/// the candid bytes of its arguments.
#[derive(Debug, PartialEq, Eq)]
pub struct CallData {
    pub method: String,
    pub args: Vec<u8>,
}

/// A call to make on another canister: its target, method, argument bytes
/// and the cycles sent with it.
#[derive(Debug, PartialEq, Eq)]
pub struct RawCall {
    pub canister: PrincipalId,
    pub method: String,
    pub args: Vec<u8>,
    pub cycles: u64,
}

/// The call that a transaction's carried call data is made as: to the
/// receiver's principal, where the receiver is a principal that names a
/// canister (`is_canister`; not read for an account), with the data's method
/// and arguments and no cycles. Any other receiver is not called.
pub fn carried_call(receiver: &Holder, is_canister: bool, data: CallData) -> (c: Option<RawCall>)
    ensures
        match c {
            Some(call) => receiver@.0 && is_canister && call.canister@ == receiver@.1
                && call.method == data.method && call.args == data.args && call.cycles == 0,
            None => !receiver@.0 || !is_canister,
        },
{
    match call_target(receiver, is_canister) {
        Some(canister) => Some(RawCall { canister, method: data.method, args: data.args, cycles: 0 }),
        None => None,
    }
}

/// The message of a call that the callee answered with failure.
pub open spec fn call_refused_message(details: Seq<char>) -> Seq<char> {
    "DFT: call failed,details:"@ + debug_text(details)
}

/// The message of a call that was rejected.
pub open spec fn call_rejected_message(code: RejectCode, message: Seq<char>) -> Seq<char> {
    "DFT: call failed,code:"@ + reject_code_name(code) + ",details:"@ + debug_text(message)
}

/// A reply that can be read: rejected, or a plain `(bool, text)` reply that
/// decodes.
pub open spec fn reply_is_readable(reply: CallReply) -> bool {
    match reply {
        CallReply::Replied(bytes) => has_plain_reply_header(bytes@) && call_reply_decoding(bytes@) is Some,
        CallReply::Rejected(_, _) => true,
    }
}

/// The outcome of a call whose callee answered `(ok, details)`: success
/// where it answered `true`, else the failure with its details.
pub open spec fn answered_outcome(ok: bool, details: Seq<char>, r: Result<bool, String>) -> bool {
    if ok {
        r == Ok::<bool, String>(true)
    } else {
        r matches Err(m) && m@ == call_refused_message(details)
    }
}

/// A call's outcome is success exactly where the callee answered `true`,
/// and success is always `Ok(true)`, never `Ok(false)`; a rejected call
/// always fails.
pub proof fn lemma_call_outcome_shape(ok: bool, details: Seq<char>, r: Result<bool, String>, reply: CallReply)
    ensures
        answered_outcome(ok, details, r) ==> (r is Ok <==> ok) && r != Ok::<bool, String>(false),
        answered_outcome(ok, details, r) && ok ==> r == Ok::<bool, String>(true),
        (reply is Rejected && call_outcome_holds(reply, r)) ==> r is Err,
{
}

/// What a call's outcome is: that of the callee's answer, or the failure
/// with the reason for a rejection.
pub open spec fn call_outcome_holds(reply: CallReply, r: Result<bool, String>) -> bool {
    match reply {
        CallReply::Replied(bytes) => {
            let (ok, details) = call_reply_decoding(bytes@)->0;
            answered_outcome(ok, details, r)
        },
        CallReply::Rejected(code, message) => r matches Err(m) && m@ == call_rejected_message(
            code,
            message@,
        ),
    }
}

/// The outcome of a call whose callee answered `(ok, details)`.
pub fn answer_outcome(ok: bool, details: &String) -> (r: Result<bool, String>)
    ensures
        answered_outcome(ok, details@, r),
{
    if ok {
        Ok(true)
    } else {
        let mut m = String::from_str("DFT: call failed,details:");
        let d = debug_string(details);
        m.append(d.as_str());
        Err(m)
    }
}

/// The outcome of a call that the platform rejected with `code` and `message`.
pub fn rejection_outcome(code: RejectCode, message: &String) -> (r: Result<bool, String>)
    ensures
        r matches Err(m) && m@ == call_rejected_message(code, message@),
{
    let mut m = String::from_str("DFT: call failed,code:");
    let n = code.name();
    m.append(n.as_str());
    m.append(",details:");
    let d = debug_string(message);
    m.append(d.as_str());
    Err(m)
}

/// The outcome of the call that a transaction carried, from its reply, or
/// nothing where the reply cannot be read (the canister stops there). A
/// reply is read only where it is a plain `(bool, text)` reply: one with a
/// type table or with further arguments is refused, as is one that does not
/// decode.
pub fn read_call_outcome(reply: CallReply) -> (r: Option<Result<bool, String>>)
    ensures
        match r {
            Some(o) => reply_is_readable(reply) && call_outcome_holds(reply, o),
            None => !reply_is_readable(reply),
        },
{
    match reply {
        CallReply::Replied(bytes) => {
            if !check_plain_reply_header(&bytes) {
                return None;
            }
            match decode_call_reply(&bytes) {
                Some((ok, details)) => Some(answer_outcome(ok, &details)),
                None => None,
            }
        },
        CallReply::Rejected(code, message) => Some(rejection_outcome(code, &message)),
    }
}

/// The next step in notifying a receiver that tokens arrived from `sender`
/// (of type `S`), to the amount `value` (of type `A`).
#[derive(Debug, PartialEq, Eq)]
pub enum NotifyStep<S, A> {
    /// Ask this canister for its candid interface, through `INTERFACE_METHOD`.
    FetchInterface(PrincipalId),
    /// Call this canister's `NOTIFY_METHOD` with the sender and the value.
    Notify { canister: PrincipalId, sender: S, value: A },
    /// Done: `true` where the receiver needed no notice or took it, `false`
    /// where the notice failed.
    Done(bool),
}

/// The first step: a receiver that is a canister is asked for its interface;
/// any other needs no notice.
pub fn notify_begin<S, A>(receiver: &Holder, is_canister: bool) -> (s: NotifyStep<S, A>)
    ensures
        receiver@.0 && is_canister ==> (s matches NotifyStep::<S, A>::FetchInterface(c) && c@ == receiver@.1),
        !(receiver@.0 && is_canister) ==> s == NotifyStep::<S, A>::Done(true),
{
    match call_target(receiver, is_canister) {
        Some(cid) => NotifyStep::FetchInterface(cid),
        None => NotifyStep::Done(true),
    }
}

/// After the interface query, which failed or told whether the interface
/// holds `NOTIFY_SIGNATURE`: notify where it does, with the sender and the
/// value, else fail.
pub fn notify_on_interface<S, A>(cid: PrincipalId, supported: Option<bool>, sender: S, value: A) -> (s:
    NotifyStep<S, A>)
    ensures
        supported == Some(true) ==> s == (NotifyStep::Notify { canister: cid, sender, value }),
        supported != Some(true) ==> s == NotifyStep::<S, A>::Done(false),
{
    match supported {
        Some(true) => NotifyStep::Notify { canister: cid, sender, value },
        _ => NotifyStep::Done(false),
    }
}

/// After the notification call, which failed or gave the receiver's answer:
/// done, successfully where the receiver answered `true`.
pub fn notify_on_reply<S, A>(answer: Option<bool>) -> (s: NotifyStep<S, A>)
    ensures
        s == NotifyStep::<S, A>::Done(answer == Some(true)),
{
    match answer {
        Some(true) => NotifyStep::Done(true),
        _ => NotifyStep::Done(false),
    }
}

} // verus!
