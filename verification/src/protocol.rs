//! The two message shapes that scheduler and workers exchange.

use vstd::prelude::*;

verus! {

/// Identity of a process within the fixed set of cooperating processes.
pub type Rank = i32;

/// A finished row on its way from a worker to the scheduler.
#[derive(Clone, Debug, PartialEq, Eq)]
pub struct RowMessage {
    /// Index of the row that was computed.
    pub row: u32,
    /// One shade per column, left to right.
    pub data: Vec<u8>,
}

/// What a finished row is to the contracts: its index and its shades.
pub struct RowData {
    pub row: nat,
    pub data: Seq<u8>,
}

impl View for RowMessage {
    type V = RowData;

    open spec fn view(&self) -> RowData {
        RowData { row: self.row as nat, data: self.data@ }
    }
}

/// The contract-level reading of what a worker sends: nothing on first
/// contact, a finished row afterwards.
pub open spec fn payload_of(msg: Option<RowMessage>) -> Option<RowData> {
    match msg {
        Some(m) => Some(m@),
        None => None,
    }
}

/// The scheduler's answer to one request.
#[derive(Clone, Copy, Debug, PartialEq, Eq)]
pub struct Reply {
    /// The requester: a reply only ever goes back to whoever asked.
    pub to: Rank,
    /// The row to compute next; the image height when no rows are left.
    pub next_row: u32,
    /// Whether every row of the image has now been received.
    pub complete: bool,
}

/// Why the scheduler refused a finished row.
#[derive(Clone, Copy, Debug, PartialEq, Eq)]
pub enum ProtocolError {
    /// The row index was never handed out.
    UnassignedRow,
    /// The row does not hold one shade per column.
    WrongLength,
    /// The row was already received.
    DuplicateRow,
}

/// Why a message could not be put on, or taken off, the wire.
#[derive(Clone, Copy, Debug, PartialEq, Eq, Structural)]
pub enum WireError {
    /// A request arrived under a negative tag.
    NegativeTag,
    /// A reply carried a negative row index.
    NegativeRow,
    /// The row index does not fit in a signed 32-bit message field.
    RowTooLarge,
}

/// The tag of a request without a row.
pub const READY_TAG: i32 = 0;

/// The tag that a request travels under: zero on first contact, the row
/// index plus one when it brings a row. A first contact and the delivery of
/// row zero can so be told apart.
pub open spec fn tag_of(payload: Option<RowData>) -> int {
    match payload {
        None => 0,
        Some(p) => p.row as int + 1,
    }
}

/// The request that arrived under `tag` with the buffer `data`. On first
/// contact the buffer means nothing and is dropped.
pub open spec fn payload_under(tag: int, data: Seq<u8>) -> Option<RowData> {
    if tag <= 0 {
        None
    } else {
        Some(RowData { row: (tag - 1) as nat, data })
    }
}

/// A request comes off the wire as it went on.
pub proof fn lemma_tag_round_trip(p: RowData)
    ensures
        payload_under(tag_of(Some(p)), p.data) == Some(p),
        forall|data: Seq<u8>| payload_under(tag_of(None), data) == None::<RowData>,
{
}

/// The tag to send a request under. Refused when the row index plus one
/// does not fit in a tag.
pub fn request_tag(msg: &Option<RowMessage>) -> (res: Result<i32, WireError>)
    ensures
        match res {
            Ok(tag) => tag == tag_of(payload_of(*msg)),
            Err(e) => e == WireError::RowTooLarge && tag_of(payload_of(*msg)) > i32::MAX,
        },
{
    match msg {
        None => Ok(READY_TAG),
        Some(m) => if m.row >= i32::MAX as u32 {
            Err(WireError::RowTooLarge)
        } else {
            Ok((m.row + 1) as i32)
        },
    }
}

/// The request that arrived under `tag` with the buffer `data`. Refused
/// when the tag is negative.
pub fn request_from_wire(tag: i32, data: Vec<u8>) -> (res: Result<Option<RowMessage>, WireError>)
    ensures
        match res {
            Ok(msg) => tag >= 0 && payload_of(msg) == payload_under(tag as int, data@),
            Err(e) => e == WireError::NegativeTag && tag < 0,
        },
{
    if tag < 0 {
        Err(WireError::NegativeTag)
    } else if tag == READY_TAG {
        Ok(None)
    } else {
        Ok(Some(RowMessage { row: (tag - 1) as u32, data }))
    }
}

/// The value to send as a reply. Refused when the row index does not fit.
pub fn reply_to_wire(next_row: u32) -> (res: Result<i32, WireError>)
    ensures
        match res {
            Ok(value) => value == next_row,
            Err(e) => e == WireError::RowTooLarge && next_row > i32::MAX,
        },
{
    if next_row > i32::MAX as u32 {
        Err(WireError::RowTooLarge)
    } else {
        Ok(next_row as i32)
    }
}

/// The row index that a reply carries. Refused when the value is negative.
pub fn reply_from_wire(value: i32) -> (res: Result<u32, WireError>)
    ensures
        match res {
            Ok(next_row) => next_row == value,
            Err(e) => e == WireError::NegativeRow && value < 0,
        },
{
    if value < 0 {
        Err(WireError::NegativeRow)
    } else {
        Ok(value as u32)
    }
}

} // verus!
