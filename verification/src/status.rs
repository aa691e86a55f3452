//! The outcome of a remote call that did not succeed, as the coordinator and the workers see it.

use vstd::prelude::*;
use vstd::string::*;

verus! {

/// The reason for which a remote call failed.
#[derive(Clone, Copy, Debug, PartialEq, Eq, Structural)]
pub enum StatusCode {
    Success,
    Cancelled,
    Unknown,
    InvalidArgument,
    DeadlineExceeded,
    NotFound,
    AlreadyExists,
    PermissionDenied,
    ResourceExhausted,
    FailedPrecondition,
    Aborted,
    OutOfRange,
    Unimplemented,
    Internal,
    Unavailable,
    DataLoss,
    Unauthenticated,
}

/// The number that stands for `code` on the wire.
pub open spec fn code_number(code: StatusCode) -> i32 {
    match code {
        StatusCode::Success => 0,
        StatusCode::Cancelled => 1,
        StatusCode::Unknown => 2,
        StatusCode::InvalidArgument => 3,
        StatusCode::DeadlineExceeded => 4,
        StatusCode::NotFound => 5,
        StatusCode::AlreadyExists => 6,
        StatusCode::PermissionDenied => 7,
        StatusCode::ResourceExhausted => 8,
        StatusCode::FailedPrecondition => 9,
        StatusCode::Aborted => 10,
        StatusCode::OutOfRange => 11,
        StatusCode::Unimplemented => 12,
        StatusCode::Internal => 13,
        StatusCode::Unavailable => 14,
        StatusCode::DataLoss => 15,
        StatusCode::Unauthenticated => 16,
    }
}

impl StatusCode {
    /// The number that stands for this code on the wire.
    pub fn number(self) -> (r: i32)
        ensures
            r == code_number(self),
    {
        match self {
            StatusCode::Success => 0,
            StatusCode::Cancelled => 1,
            StatusCode::Unknown => 2,
            StatusCode::InvalidArgument => 3,
            StatusCode::DeadlineExceeded => 4,
            StatusCode::NotFound => 5,
            StatusCode::AlreadyExists => 6,
            StatusCode::PermissionDenied => 7,
            StatusCode::ResourceExhausted => 8,
            StatusCode::FailedPrecondition => 9,
            StatusCode::Aborted => 10,
            StatusCode::OutOfRange => 11,
            StatusCode::Unimplemented => 12,
            StatusCode::Internal => 13,
            StatusCode::Unavailable => 14,
            StatusCode::DataLoss => 15,
            StatusCode::Unauthenticated => 16,
        }
    }

    /// The code that `number` stands for; numbers without one stand for `Unknown`.
    pub fn from_number(number: i32) -> (r: StatusCode)
        ensures
            0 <= number <= 16 ==> code_number(r) == number,
            !(0 <= number <= 16) ==> r == StatusCode::Unknown,
    {
        match number {
            0 => StatusCode::Success,
            1 => StatusCode::Cancelled,
            2 => StatusCode::Unknown,
            3 => StatusCode::InvalidArgument,
            4 => StatusCode::DeadlineExceeded,
            5 => StatusCode::NotFound,
            6 => StatusCode::AlreadyExists,
            7 => StatusCode::PermissionDenied,
            8 => StatusCode::ResourceExhausted,
            9 => StatusCode::FailedPrecondition,
            10 => StatusCode::Aborted,
            11 => StatusCode::OutOfRange,
            12 => StatusCode::Unimplemented,
            13 => StatusCode::Internal,
            14 => StatusCode::Unavailable,
            15 => StatusCode::DataLoss,
            16 => StatusCode::Unauthenticated,
            _ => StatusCode::Unknown,
        }
    }
}

/// A failed remote call.
#[derive(Debug, PartialEq, Eq)]
pub struct RpcStatus {
    /// Why the call failed.
    pub code: StatusCode,
    /// What the callee says about it.
    pub message: String,
    /// Encoded error that travels with the status.
    pub details: Vec<u8>,
    /// What else travels with the status: names, each with the bytes of a value, in order.
    pub metadata: Vec<(String, Vec<u8>)>,
    /// Debug rendering of the local error behind the status, where there is one.
    pub source: Option<String>,
}

/// What an [`RpcStatus`] says.
pub struct RpcStatusView {
    pub code: StatusCode,
    pub message: Seq<char>,
    pub details: Seq<u8>,
    pub metadata: Seq<(Seq<char>, Seq<u8>)>,
    pub source: Option<Seq<char>>,
}

impl View for RpcStatus {
    type V = RpcStatusView;

    open spec fn view(&self) -> RpcStatusView {
        RpcStatusView {
            code: self.code,
            message: self.message@,
            details: self.details@,
            metadata: metadata_view(self.metadata@),
            source: match self.source {
                Some(source) => Some(source@),
                None => None,
            },
        }
    }
}

/// What `metadata` says.
pub open spec fn metadata_view(metadata: Seq<(String, Vec<u8>)>) -> Seq<(Seq<char>, Seq<u8>)> {
    metadata.map_values(|entry: (String, Vec<u8>)| (entry.0@, entry.1@))
}

/// A status that carries nothing but a code and a message.
pub open spec fn plain_status(code: StatusCode, message: Seq<char>) -> RpcStatusView {
    RpcStatusView {
        code,
        message,
        details: Seq::empty(),
        metadata: Seq::empty(),
        source: None,
    }
}

/// How `tonic::Status` displays a code and a message that come without a source error.
pub uninterp spec fn tonic_status_text(code: i32, message: Seq<char>) -> Seq<char>;

/// A status as it is shown inside messages: code and message first, the source error after them.
pub open spec fn status_text(status: RpcStatusView) -> Seq<char> {
    let head = tonic_status_text(code_number(status.code), status.message);
    match status.source {
        Some(source) => head + ", source: "@ + source,
        None => head,
    }
}

/// Displays a status made by `tonic::Status::new` from a code number and a message. The text
/// depends on these two values alone.
#[verifier::external_body]
fn display_tonic_status(code: i32, message: &String) -> (r: String)
    ensures
        r@ == tonic_status_text(code, message@),
{
    tonic::Status::new(tonic::Code::from(code), message.as_str()).to_string()
}

fn copy_metadata(metadata: &Vec<(String, Vec<u8>)>) -> (r: Vec<(String, Vec<u8>)>)
    ensures
        metadata_view(r@) == metadata_view(metadata@),
{
    let mut copies: Vec<(String, Vec<u8>)> = Vec::new();
    let mut i: usize = 0;
    while i < metadata.len()
        invariant
            i <= metadata@.len(),
            copies@.len() == i,
            forall|k: int|
                0 <= k < i ==> (#[trigger] copies@[k]).0@ == metadata@[k].0@ && copies@[k].1@
                    == metadata@[k].1@,
        decreases metadata@.len() - i,
    {
        let entry = &metadata[i];
        let value = entry.1.clone();
        assert(value@ =~= entry.1@);
        copies.push((entry.0.clone(), value));
        i += 1;
    }
    assert(metadata_view(copies@) =~= metadata_view(metadata@));
    copies
}

impl Clone for RpcStatus {
    fn clone(&self) -> (r: RpcStatus)
        ensures
            r@ == self@,
    {
        let details = self.details.clone();
        assert(details@ =~= self.details@);
        let metadata = copy_metadata(&self.metadata);
        let source = match &self.source {
            Some(source) => Some(source.clone()),
            None => None,
        };
        RpcStatus { code: self.code, message: self.message.clone(), details, metadata, source }
    }
}

impl RpcStatus {
    /// A status that carries nothing but a code and a message.
    pub fn new(code: StatusCode, message: String) -> (r: RpcStatus)
        ensures
            r@ == plain_status(code, message@),
    {
        let details: Vec<u8> = Vec::new();
        let metadata: Vec<(String, Vec<u8>)> = Vec::new();
        assert(details@ =~= Seq::<u8>::empty());
        assert(metadata_view(metadata@) =~= Seq::empty());
        RpcStatus { code, message, details, metadata, source: None }
    }

    /// The status as it is shown inside messages.
    pub fn to_text(&self) -> (r: String)
        ensures
            r@ == status_text(self@),
    {
        let mut out = display_tonic_status(self.code.number(), &self.message);
        if let Some(source) = &self.source {
            out.append(", source: ");
            out.append(source.as_str());
        }
        out
    }
}

/// A new status carries its code and its message and nothing else, and every code has a number of
/// its own that stands for it alone.
pub proof fn statuses_say_what_they_are_made_of(
    code: StatusCode,
    message: String,
    status: RpcStatus,
    number: i32,
    back: StatusCode,
    other: StatusCode,
    other_number: i32,
)
    requires
        call_ensures(RpcStatus::new, (code, message), status),
        call_ensures(StatusCode::number, (code,), number),
        call_ensures(StatusCode::from_number, (number,), back),
        call_ensures(StatusCode::number, (other,), other_number),
    ensures
        status.code == code,
        status.message@ == message@,
        status.details@.len() == 0,
        status.metadata@.len() == 0,
        status.source is None,
        status@ == plain_status(code, message@),
        0 <= number <= 16,
        back == code,
        number == other_number <==> code == other,
{
    assert(metadata_view(status.metadata@).len() == status.metadata@.len());
}

/// Every failed status is numbered as in the protocol.
pub proof fn codes_have_the_numbers_of_the_protocol(number: i32, code: StatusCode)
    requires
        call_ensures(StatusCode::from_number, (number,), code),
    ensures
        number == 0 ==> code == StatusCode::Success,
        number == 1 ==> code == StatusCode::Cancelled,
        number == 2 ==> code == StatusCode::Unknown,
        number == 3 ==> code == StatusCode::InvalidArgument,
        number == 4 ==> code == StatusCode::DeadlineExceeded,
        number == 5 ==> code == StatusCode::NotFound,
        number == 6 ==> code == StatusCode::AlreadyExists,
        number == 7 ==> code == StatusCode::PermissionDenied,
        number == 8 ==> code == StatusCode::ResourceExhausted,
        number == 9 ==> code == StatusCode::FailedPrecondition,
        number == 10 ==> code == StatusCode::Aborted,
        number == 11 ==> code == StatusCode::OutOfRange,
        number == 12 ==> code == StatusCode::Unimplemented,
        number == 13 ==> code == StatusCode::Internal,
        number == 14 ==> code == StatusCode::Unavailable,
        number == 15 ==> code == StatusCode::DataLoss,
        number == 16 ==> code == StatusCode::Unauthenticated,
        number < 0 || number > 16 ==> code == StatusCode::Unknown,
{
}

/// A status is shown as its code and its message are, with the source error behind them where there
/// is one.
pub proof fn statuses_are_shown_with_their_source(status: &RpcStatus, number: i32, r: String)
    requires
        call_ensures(StatusCode::number, (status.code,), number),
        call_ensures(RpcStatus::to_text, (status,), r),
    ensures
        r@ == (match status.source {
            Some(source) => tonic_status_text(number, status.message@) + ", source: "@ + source@,
            None => tonic_status_text(number, status.message@),
        }),
{
}

} // verus!
