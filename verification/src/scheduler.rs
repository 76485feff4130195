//! The scheduler: the single owner of the row cursor and of the image grid.
//!
//! It is purely reactive. Each request from a worker is handled to the end
//! before the next one is looked at: a finished row, if the request carries
//! one, is stored under its index, and the requester is answered with the
//! next unassigned row, or with the image height once none is left.

use vstd::prelude::*;
use crate::canvas::{colored, colored_row, Picture, PictureView};
use crate::protocol::{payload_of, ProtocolError, Rank, Reply, RowData, RowMessage};

verus! {

/// How many rows of a grid have been received.
pub open spec fn filled_count(rows: Seq<Option<Seq<u8>>>) -> nat
    decreases rows.len(),
{
    if rows.len() == 0 {
        0
    } else {
        filled_count(rows.drop_last()) + if rows.last() is Some { 1nat } else { 0nat }
    }
}

/// The scheduler as the contracts see it.
pub struct SchedulerState {
    /// Columns per row.
    pub width: nat,
    /// Rows in the image.
    pub height: nat,
    /// The cursor: the next row that has not been handed out.
    pub next_row: nat,
    /// The image grid: for each row index, the shades received for it.
    pub rows: Seq<Option<Seq<u8>>>,
}

impl SchedulerState {
    /// The state before any request: nothing handed out, nothing received.
    pub open spec fn init(width: nat, height: nat) -> SchedulerState {
        SchedulerState {
            width,
            height,
            next_row: 0,
            rows: Seq::new(height, |r: int| None::<Seq<u8>>),
        }
    }

    /// The cursor never passes the height, and only rows that were handed
    /// out can have been received, each with one shade per column.
    pub open spec fn wf(self) -> bool {
        &&& self.rows.len() == self.height
        &&& self.next_row <= self.height
        &&& forall|r: int|
            0 <= r < self.height && (#[trigger] self.rows[r]) is Some ==> r < self.next_row
                && self.rows[r]->0.len() == self.width
    }

    /// The completed-row counter.
    pub open spec fn rows_done(self) -> nat {
        filled_count(self.rows)
    }

    /// Every row has been received.
    pub open spec fn complete(self) -> bool {
        self.rows_done() == self.height
    }

    /// The grid's shades, row by row; meant for a complete grid.
    pub open spec fn shades(self) -> Seq<Seq<u8>> {
        Seq::new(self.height, |y: int| self.rows[y]->0)
    }

    /// Why a request is refused, if it is. A request without a row never is.
    pub open spec fn rejects(self, payload: Option<RowData>) -> Option<ProtocolError> {
        match payload {
            None => None,
            Some(p) => if p.row >= self.next_row {
                Some(ProtocolError::UnassignedRow)
            } else if p.data.len() != self.width {
                Some(ProtocolError::WrongLength)
            } else if self.rows[p.row as int] is Some {
                Some(ProtocolError::DuplicateRow)
            } else {
                None
            },
        }
    }

    /// The grid after the row of an accepted request, if any, is stored.
    pub open spec fn record(self, payload: Option<RowData>) -> SchedulerState {
        match payload {
            None => self,
            Some(p) => SchedulerState { rows: self.rows.update(p.row as int, Some(p.data)), ..self },
        }
    }

    /// The cursor after one more request was answered: it moves by one
    /// until it reaches the height, and then stays.
    pub open spec fn advance(self) -> SchedulerState {
        SchedulerState {
            next_row: if self.next_row < self.height {
                self.next_row + 1
            } else {
                self.next_row
            },
            ..self
        }
    }

    /// The state after an accepted request.
    pub open spec fn step(self, payload: Option<RowData>) -> SchedulerState {
        self.record(payload).advance()
    }
}

/// A grid in which no row has been received counts zero.
pub proof fn lemma_filled_count_empty(height: nat)
    ensures
        filled_count(Seq::new(height, |r: int| None::<Seq<u8>>)) == 0,
    decreases height,
{
    if height > 0 {
        lemma_filled_count_empty((height - 1) as nat);
        assert(Seq::new(height, |r: int| None::<Seq<u8>>).drop_last() =~= Seq::new(
            (height - 1) as nat,
            |r: int| None::<Seq<u8>>,
        ));
    }
}

/// Receiving a row that was missing raises the count by one.
pub proof fn lemma_filled_count_update(rows: Seq<Option<Seq<u8>>>, r: int, data: Seq<u8>)
    requires
        0 <= r < rows.len(),
        rows[r] is None,
    ensures
        filled_count(rows.update(r, Some(data))) == filled_count(rows) + 1,
    decreases rows.len(),
{
    let updated = rows.update(r, Some(data));
    if r == rows.len() - 1 {
        assert(updated.drop_last() =~= rows.drop_last());
    } else {
        assert(updated.drop_last() =~= rows.drop_last().update(r, Some(data)));
        lemma_filled_count_update(rows.drop_last(), r, data);
    }
}

/// The count never exceeds the number of rows, and reaches it exactly when
/// no row is missing.
pub proof fn lemma_filled_count_full(rows: Seq<Option<Seq<u8>>>)
    ensures
        filled_count(rows) <= rows.len(),
        filled_count(rows) == rows.len() <==> forall|r: int|
            0 <= r < rows.len() ==> (#[trigger] rows[r]) is Some,
    decreases rows.len(),
{
    if rows.len() > 0 {
        let front = rows.drop_last();
        lemma_filled_count_full(front);
        assert(forall|r: int| 0 <= r < front.len() ==> front[r] == rows[r]);
        if filled_count(rows) == rows.len() {
            assert(rows.last() is Some);
            assert forall|r: int| 0 <= r < rows.len() implies (#[trigger] rows[r]) is Some by {
                if r < front.len() {
                    assert(front[r] is Some);
                }
            }
        }
        if forall|r: int| 0 <= r < rows.len() ==> (#[trigger] rows[r]) is Some {
            assert(rows[rows.len() - 1] is Some);
            assert forall|r: int| 0 <= r < front.len() implies (#[trigger] front[r]) is Some by {
                assert(rows[r] is Some);
            }
        }
    }
}

/// The grid as stored, read as the contracts read it.
pub open spec fn rows_view(grid: Seq<Option<Vec<u8>>>) -> Seq<Option<Seq<u8>>> {
    Seq::new(
        grid.len(),
        |r: int|
            match grid[r] {
                Some(v) => Some(v@),
                None => None,
            },
    )
}

/// The coordinating process's state: the row cursor, the completed-row
/// counter and the image grid.
pub struct Scheduler {
    width: u32,
    height: u32,
    next_row: u32,
    rows_done: u32,
    grid: Vec<Option<Vec<u8>>>,
}

impl View for Scheduler {
    type V = SchedulerState;

    closed spec fn view(&self) -> SchedulerState {
        SchedulerState {
            width: self.width as nat,
            height: self.height as nat,
            next_row: self.next_row as nat,
            rows: rows_view(self.grid@),
        }
    }
}

impl Scheduler {
    /// The stored completed-row counter agrees with the grid.
    pub closed spec fn counted(&self) -> bool {
        self.rows_done == self@.rows_done()
    }

    /// The state is well formed, the counter agrees with the grid, and a
    /// picture of the image fits in memory at three bytes per pixel.
    pub open spec fn wf(&self) -> bool {
        &&& self@.wf()
        &&& self.counted()
        &&& 3 * self@.width * self@.height <= isize::MAX
    }

    /// A scheduler for an image of `width` by `height` shades, with no row
    /// handed out and none received; `None` when a picture of that size
    /// would not fit in memory at three bytes per pixel.
    pub fn new(width: u32, height: u32) -> (res: Option<Scheduler>)
        ensures
            res is Some <==> 3 * width * height <= isize::MAX,
            res matches Some(s) ==> s.wf() && s@ == SchedulerState::init(
                width as nat,
                height as nat,
            ),
    {
        assert(width * height <= 0xffff_ffff * 0xffff_ffff) by (nonlinear_arith)
            requires
                width <= 0xffff_ffff,
                height <= 0xffff_ffff,
        ;
        assert(3 * width * height == 3 * (width * height)) by (nonlinear_arith);
        let area: u64 = (width as u64) * (height as u64);
        if area > (isize::MAX as u64) / 3 {
            return None;
        }
        let mut grid: Vec<Option<Vec<u8>>> = Vec::new();
        let mut r: u32 = 0;
        while r < height
            invariant
                r <= height,
                grid.len() == r,
                forall|k: int| 0 <= k < r ==> (#[trigger] grid[k]) is None,
                filled_count(rows_view(grid@)) == 0,
            decreases height - r,
        {
            let ghost before = rows_view(grid@);
            grid.push(None);
            proof {
                assert(rows_view(grid@).drop_last() =~= before);
            }
            r = r + 1;
        }
        let s = Scheduler { width, height, next_row: 0, rows_done: 0, grid };
        proof {
            assert(s@.rows =~= SchedulerState::init(width as nat, height as nat).rows);
        }
        Some(s)
    }

    /// Handles one request from worker `from`.
    ///
    /// A finished row is stored under its index unless it was never handed
    /// out, has the wrong length or was already received; a refused request
    /// changes nothing. An accepted request is answered with the cursor as
    /// it stood, and the cursor then moves on unless it has reached the
    /// height. A request without a row is always accepted.
    pub fn handle(&mut self, from: Rank, msg: Option<RowMessage>) -> (res: Result<
        Reply,
        ProtocolError,
    >)
        requires
            old(self).wf(),
        ensures
            final(self).wf(),
            match res {
                Ok(reply) => {
                    &&& old(self)@.rejects(payload_of(msg)) is None
                    &&& final(self)@ == old(self)@.step(payload_of(msg))
                    &&& reply.to == from
                    &&& reply.next_row == old(self)@.next_row
                    &&& reply.complete == final(self)@.complete()
                },
                Err(e) => {
                    &&& old(self)@.rejects(payload_of(msg)) == Some(e)
                    &&& final(self)@ == old(self)@
                },
            },
    {
        match msg {
            None => {},
            Some(m) => {
                if m.row >= self.next_row {
                    return Err(ProtocolError::UnassignedRow);
                }
                if m.data.len() != self.width as usize {
                    return Err(ProtocolError::WrongLength);
                }
                let r = m.row as usize;
                if self.grid[r].is_some() {
                    return Err(ProtocolError::DuplicateRow);
                }
                proof {
                    lemma_filled_count_update(self@.rows, r as int, m.data@);
                    lemma_filled_count_full(self@.rows.update(r as int, Some(m.data@)));
                }
                let ghost before = self@.rows;
                let ghost shades = m.data@;
                self.grid.set(r, Some(m.data));
                proof {
                    assert(rows_view(self.grid@) =~= before.update(r as int, Some(shades)));
                }
                self.rows_done = self.rows_done + 1;
            },
        }
        let next = self.next_row;
        if self.next_row < self.height {
            self.next_row = self.next_row + 1;
        }
        Ok(Reply { to: from, next_row: next, complete: self.rows_done == self.height })
    }

    /// Columns per row.
    pub fn width(&self) -> (w: u32)
        ensures
            w == self@.width,
    {
        self.width
    }

    /// Rows in the image.
    pub fn height(&self) -> (h: u32)
        ensures
            h == self@.height,
    {
        self.height
    }

    /// The cursor: the next row that has not been handed out.
    pub fn next_row(&self) -> (r: u32)
        ensures
            r == self@.next_row,
    {
        self.next_row
    }

    /// The completed-row counter.
    pub fn rows_done(&self) -> (n: u32)
        requires
            self.wf(),
        ensures
            n == self@.rows_done(),
    {
        self.rows_done
    }

    /// Whether every row has been received.
    pub fn is_complete(&self) -> (done: bool)
        requires
            self.wf(),
        ensures
            done == self@.complete(),
    {
        self.rows_done == self.height
    }

    /// The shades received for row `y`, if it lies in the image and has
    /// been received.
    pub fn row(&self, y: u32) -> (r: Option<&Vec<u8>>)
        requires
            self.wf(),
        ensures
            match r {
                Some(shades) => y < self@.height && self@.rows[y as int] == Some(shades@),
                None => y >= self@.height || self@.rows[y as int] is None,
            },
    {
        if y >= self.height {
            return None;
        }
        match &self.grid[y as usize] {
            Some(shades) => Some(shades),
            None => None,
        }
    }

    /// Image assembly: the picture of a complete grid, each shade turned
    /// into its colour; `None` while a row is missing. The grid itself is
    /// only read.
    pub fn assemble(&self) -> (res: Option<Picture>)
        requires
            self.wf(),
        ensures
            res is Some <==> self@.complete(),
            res matches Some(picture) ==> picture.wf() && picture@ == (PictureView {
                width: self@.width,
                height: self@.height,
                rows: colored(self@.shades()),
            }),
    {
        if self.rows_done != self.height {
            return None;
        }
        proof {
            assert(3 * self.width * self.height == 3 * self@.width * self@.height);
        }
        let mut picture = match Picture::new(self.width, self.height) {
            Some(p) => p,
            None => {
                return None;
            },
        };
        proof {
            lemma_filled_count_full(self@.rows);
        }
        let mut y: u32 = 0;
        while y < self.height
            invariant
                self.wf(),
                y <= self.height,
                forall|r: int| 0 <= r < self.height ==> (#[trigger] self@.rows[r]) is Some,
                picture.wf(),
                picture@.width == self.width,
                picture@.height == self.height,
                forall|r: int|
                    0 <= r < y ==> (#[trigger] picture@.rows[r]) == colored_row(self@.rows[r]->0),
            decreases self.height - y,
        {
            assert(self@.rows[y as int] is Some);
            match &self.grid[y as usize] {
                Some(shades) => {
                    picture.paint_row(y, shades);
                },
                None => {},
            }
            y = y + 1;
        }
        proof {
            assert(picture@.rows =~= colored(self@.shades()));
        }
        Some(picture)
    }
}

} // verus!
