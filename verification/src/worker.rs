//! The worker's side of the protocol, and the row computer it runs.
//!
//! A worker asks, is answered with a row index, computes that row and asks
//! again with the finished row, until the answer is the image height or
//! more. It never computes a row that it was not given, and once told to
//! stop it stays stopped.

use vstd::prelude::*;
use crate::palette::shade_of;
use crate::protocol::{RowData, RowMessage};

verus! {

/// Where a worker stands in the protocol.
#[derive(Clone, Copy, Debug, PartialEq, Eq, Structural)]
pub enum WorkerState {
    /// It has asked, or is about to ask, and waits for the answer.
    Requesting,
    /// It was given `row` and has not yet reported it.
    Computing { row: u32 },
    /// It was told that no rows are left.
    Terminated,
}

/// Why a worker refused a step.
#[derive(Clone, Copy, Debug, PartialEq, Eq, Structural)]
pub enum WorkerError {
    /// An answer came while no request was open.
    NotRequesting,
    /// A row was reported while none was being computed.
    NotComputing,
    /// The reported row does not hold one shade per column.
    WrongLength,
}

/// One worker: the image size it was started with and its protocol state.
pub struct Worker {
    width: u32,
    height: u32,
    state: WorkerState,
}

/// The worker as the contracts see it.
pub struct WorkerView {
    pub width: nat,
    pub height: nat,
    pub state: WorkerState,
}

impl WorkerView {
    /// A row that is being computed lies inside the image.
    pub open spec fn wf(self) -> bool {
        self.state matches WorkerState::Computing { row } ==> row < self.height
    }

    /// The state that an answer leads to: the terminate value is any index
    /// from the height up.
    pub open spec fn after_reply(self, next_row: u32) -> WorkerView {
        WorkerView {
            state: if next_row >= self.height {
                WorkerState::Terminated
            } else {
                WorkerState::Computing { row: next_row }
            },
            ..self
        }
    }
}

impl View for Worker {
    type V = WorkerView;

    closed spec fn view(&self) -> WorkerView {
        WorkerView { width: self.width as nat, height: self.height as nat, state: self.state }
    }
}

impl Worker {
    /// The worker's state is well formed.
    pub open spec fn wf(&self) -> bool {
        self@.wf()
    }

    /// A worker for an image of `width` by `height`, about to make first
    /// contact.
    pub fn new(width: u32, height: u32) -> (w: Worker)
        ensures
            w.wf(),
            w@ == (WorkerView {
                width: width as nat,
                height: height as nat,
                state: WorkerState::Requesting,
            }),
    {
        Worker { width, height, state: WorkerState::Requesting }
    }

    /// Where the worker stands.
    pub fn state(&self) -> (s: WorkerState)
        ensures
            s == self@.state,
    {
        self.state
    }

    /// Takes the scheduler's answer to the open request. An index below the
    /// height is the row to compute, and is returned; anything else ends the
    /// worker. An answer that no request is open for is refused and changes
    /// nothing.
    pub fn on_reply(&mut self, next_row: u32) -> (res: Result<Option<u32>, WorkerError>)
        requires
            old(self).wf(),
        ensures
            final(self).wf(),
            match res {
                Ok(assigned) => {
                    &&& old(self)@.state == WorkerState::Requesting
                    &&& final(self)@ == old(self)@.after_reply(next_row)
                    &&& assigned == if next_row < old(self)@.height {
                        Some(next_row)
                    } else {
                        None
                    }
                },
                Err(e) => {
                    &&& old(self)@.state != WorkerState::Requesting
                    &&& e == WorkerError::NotRequesting
                    &&& final(self)@ == old(self)@
                },
            },
    {
        match self.state {
            WorkerState::Requesting => {
                if next_row >= self.height {
                    self.state = WorkerState::Terminated;
                    Ok(None)
                } else {
                    self.state = WorkerState::Computing { row: next_row };
                    Ok(Some(next_row))
                }
            },
            _ => Err(WorkerError::NotRequesting),
        }
    }

    /// Reports the row that was being computed: the shades become the
    /// message for the next request, tagged with the row's index, and the
    /// worker is requesting again. Refused, with nothing changed, when no
    /// row is being computed or the shades are not one per column.
    pub fn finish_row(&mut self, data: Vec<u8>) -> (res: Result<RowMessage, WorkerError>)
        requires
            old(self).wf(),
        ensures
            final(self).wf(),
            match res {
                Ok(msg) => {
                    &&& old(self)@.state == (WorkerState::Computing { row: msg.row })
                    &&& data.len() == old(self)@.width
                    &&& msg@ == (RowData { row: msg.row as nat, data: data@ })
                    &&& final(self)@ == (WorkerView {
                        state: WorkerState::Requesting,
                        ..old(self)@
                    })
                },
                Err(e) => {
                    &&& final(self)@ == old(self)@
                    &&& e == if !(old(self)@.state is Computing) {
                        WorkerError::NotComputing
                    } else {
                        WorkerError::WrongLength
                    }
                    &&& old(self)@.state is Computing ==> data.len() != old(self)@.width
                },
            },
    {
        match self.state {
            WorkerState::Computing { row } => {
                if data.len() != self.width as usize {
                    return Err(WorkerError::WrongLength);
                }
                self.state = WorkerState::Requesting;
                Ok(RowMessage { row, data })
            },
            _ => Err(WorkerError::NotComputing),
        }
    }
}

/// Shade `s` is what `kernel` can return for pixel `(x, y)`, reduced.
pub open spec fn is_shade_of<F: Fn(u32, u32) -> u32>(kernel: &F, x: u32, y: u32, s: u8) -> bool {
    exists|count: u32| #[trigger] kernel.ensures((x, y), count) && s == count % 16
}

/// The row computer: runs `kernel` once per column of row `y`, left to
/// right, and keeps of each iteration count its shade.
pub fn compute_row_with<F: Fn(u32, u32) -> u32>(width: u32, y: u32, kernel: &F) -> (row: Vec<u8>)
    requires
        forall|x: u32| x < width ==> #[trigger] kernel.requires((x, y)),
    ensures
        row.len() == width,
        forall|x: int| 0 <= x < width ==> is_shade_of(kernel, x as u32, y, #[trigger] row[x]),
{
    let mut row: Vec<u8> = Vec::new();
    let mut x: u32 = 0;
    while x < width
        invariant
            x <= width,
            row.len() == x,
            forall|k: u32| k < width ==> #[trigger] kernel.requires((k, y)),
            forall|k: int| 0 <= k < x ==> is_shade_of(kernel, k as u32, y, #[trigger] row[k]),
        decreases width - x,
    {
        let count = kernel(x, y);
        row.push(shade_of(count));
        x = x + 1;
    }
    row
}

} // verus!
