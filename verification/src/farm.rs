//! The scheduler together with its workers.
//!
//! A farm is the scheduler and a fixed set of workers that keep to the
//! protocol: a worker asks, computes the row it is given, and asks again
//! with that row, until it is told to stop. Which worker asks next is left
//! open. Whatever the order, the scheduler never has to refuse a request,
//! and once every worker has stopped the image is complete.

use vstd::prelude::*;
use crate::protocol::RowData;
use crate::scheduler::{lemma_filled_count_full, SchedulerState};
use crate::worker::{WorkerState, WorkerView};

verus! {

/// A worker between two exchanges.
pub struct Hand {
    /// It has been told to stop.
    pub stopped: bool,
    /// The row that it was given last and has not yet handed in.
    pub holding: Option<nat>,
}

/// The scheduler and its workers.
pub struct Farm {
    pub scheduler: SchedulerState,
    pub hands: Seq<Hand>,
}

/// What a worker sends with its next request: nothing on first contact,
/// else the row it holds, as the kernel `shades` computes it.
pub open spec fn request_of(hand: Hand, shades: spec_fn(nat) -> Seq<u8>) -> Option<RowData> {
    match hand.holding {
        Some(r) => Some(RowData { row: r, data: shades(r) }),
        None => None,
    }
}

/// The worker as its exchange leaves it: holding the row it was given, or
/// stopped when the answer was the height.
pub open spec fn hand_after(reply: nat, height: nat) -> Hand {
    if reply < height {
        Hand { stopped: false, holding: Some(reply) }
    } else {
        Hand { stopped: true, holding: None }
    }
}

/// The farm's worker is the worker of the protocol: an answer leaves it
/// holding a row exactly when it leaves the worker computing that row, and
/// stopped exactly when it leaves the worker terminated.
pub proof fn lemma_hand_follows_worker(worker: WorkerView, reply: u32)
    ensures
        match worker.after_reply(reply).state {
            WorkerState::Computing { row } => hand_after(reply as nat, worker.height) == (Hand {
                stopped: false,
                holding: Some(row as nat),
            }),
            WorkerState::Terminated => hand_after(reply as nat, worker.height) == (Hand {
                stopped: true,
                holding: None,
            }),
            WorkerState::Requesting => false,
        },
{
}

/// Worker `w` has not been told to stop.
pub open spec fn live(farm: Farm, w: int) -> bool {
    0 <= w < farm.hands.len() && !farm.hands[w].stopped
}

/// Some worker holds row `r`.
pub open spec fn held(farm: Farm, r: nat) -> bool {
    exists|w: int| 0 <= w < farm.hands.len() && #[trigger] farm.hands[w].holding == Some(r)
}

/// A farm of `workers` workers before the first request.
pub open spec fn start(width: nat, height: nat, workers: nat) -> Farm {
    Farm {
        scheduler: SchedulerState::init(width, height),
        hands: Seq::new(workers, |w: int| Hand { stopped: false, holding: None }),
    }
}

/// One exchange: worker `w` sends its request, the scheduler handles it,
/// and the worker takes the answer and computes the row it names.
pub open spec fn exchange(farm: Farm, w: int, shades: spec_fn(nat) -> Seq<u8>) -> Farm {
    Farm {
        scheduler: farm.scheduler.step(request_of(farm.hands[w], shades)),
        hands: farm.hands.update(w, hand_after(farm.scheduler.next_row, farm.scheduler.height)),
    }
}

/// The farm after the workers named in `schedule` have had their exchanges
/// in that order. A turn given to a worker that has stopped, or to none,
/// passes.
pub open spec fn farm_after(
    width: nat,
    height: nat,
    workers: nat,
    schedule: Seq<int>,
    shades: spec_fn(nat) -> Seq<u8>,
) -> Farm
    decreases schedule.len(),
{
    if schedule.len() == 0 {
        start(width, height, workers)
    } else {
        let before = farm_after(width, height, workers, schedule.drop_last(), shades);
        if live(before, schedule.last()) {
            exchange(before, schedule.last(), shades)
        } else {
            before
        }
    }
}

/// The kernel gives every row of the image one shade per column.
pub open spec fn fits(shades: spec_fn(nat) -> Seq<u8>, width: nat, height: nat) -> bool {
    forall|r: nat| r < height ==> (#[trigger] shades(r)).len() == width
}

/// What holds of a farm at every moment. A stopped worker holds nothing and
/// was stopped only after the last row had been handed out. A row that a
/// worker holds was handed out, is not yet in the grid, and is held by no
/// other worker. Every row that was handed out is in the grid or in some
/// worker's hands. And what is in the grid is what the kernel computes.
pub open spec fn consistent(farm: Farm, shades: spec_fn(nat) -> Seq<u8>) -> bool {
    &&& farm.scheduler.wf()
    &&& forall|w: int|
        0 <= w < farm.hands.len() && (#[trigger] farm.hands[w]).stopped ==> farm.hands[w].holding
            is None && farm.scheduler.next_row == farm.scheduler.height
    &&& forall|w: int|
        0 <= w < farm.hands.len() && (#[trigger] farm.hands[w]).holding is Some ==> {
            let r = farm.hands[w].holding->0;
            r < farm.scheduler.next_row && farm.scheduler.rows[r as int] is None
        }
    &&& forall|v: int, w: int|
        0 <= v < farm.hands.len() && 0 <= w < farm.hands.len() && v != w && (
        #[trigger] farm.hands[v]).holding is Some ==> farm.hands[v].holding != (
        #[trigger] farm.hands[w]).holding
    &&& forall|r: nat|
        r < farm.scheduler.next_row ==> (#[trigger] farm.scheduler.rows[r as int]) is Some || held(
            farm,
            r,
        )
    &&& forall|r: nat|
        r < farm.scheduler.height && (#[trigger] farm.scheduler.rows[r as int]) is Some
            ==> farm.scheduler.rows[r as int] == Some(shades(r))
}

/// A farm starts out consistent.
pub proof fn lemma_start_consistent(
    width: nat,
    height: nat,
    workers: nat,
    shades: spec_fn(nat) -> Seq<u8>,
)
    ensures
        consistent(start(width, height, workers), shades),
{
}

/// No refusal, no double assignment, no lost row. In a consistent farm the
/// request of any worker that has not stopped is accepted, and the exchange
/// leaves the farm consistent.
pub proof fn lemma_exchange(farm: Farm, w: int, shades: spec_fn(nat) -> Seq<u8>)
    requires
        consistent(farm, shades),
        fits(shades, farm.scheduler.width, farm.scheduler.height),
        live(farm, w),
    ensures
        farm.scheduler.rejects(request_of(farm.hands[w], shades)) is None,
        consistent(exchange(farm, w, shades), shades),
        exchange(farm, w, shades).hands.len() == farm.hands.len(),
        exchange(farm, w, shades).scheduler.width == farm.scheduler.width,
        exchange(farm, w, shades).scheduler.height == farm.scheduler.height,
{
    let after = exchange(farm, w, shades);
    let reply = farm.scheduler.next_row;
    let height = farm.scheduler.height;
    if let Some(r) = farm.hands[w].holding {
        assert(shades(r).len() == farm.scheduler.width);
    }
    assert forall|v: int| 0 <= v < after.hands.len() && v != w implies #[trigger] after.hands[v]
        == farm.hands[v] by {}
    assert forall|v: int|
        0 <= v < after.hands.len() && (#[trigger] after.hands[v]).stopped implies after.hands[v].holding
        is None && after.scheduler.next_row == after.scheduler.height by {
        if v != w {
            assert(farm.hands[v].stopped);
        }
    }
    assert forall|v: int|
        0 <= v < after.hands.len() && (#[trigger] after.hands[v]).holding is Some implies {
        let r = after.hands[v].holding->0;
        r < after.scheduler.next_row && after.scheduler.rows[r as int] is None
    } by {
        if v != w {
            assert(farm.hands[v].holding is Some);
            assert(farm.hands[v].holding != farm.hands[w].holding);
        } else {
            assert(reply < height);
            if farm.scheduler.rows[reply as int] is Some {
                assert(reply < farm.scheduler.next_row);
            }
        }
    }
    assert forall|u: int, v: int|
        0 <= u < after.hands.len() && 0 <= v < after.hands.len() && u != v && (
        #[trigger] after.hands[u]).holding is Some implies after.hands[u].holding != (
        #[trigger] after.hands[v]).holding by {
        if u != w && v != w {
            assert(farm.hands[u].holding is Some);
            assert(farm.hands[u].holding != farm.hands[v].holding);
        } else if u == w {
            if after.hands[v].holding is Some {
                assert(farm.hands[v].holding is Some);
                assert(farm.hands[v].holding->0 < reply);
            }
        } else {
            assert(farm.hands[u].holding is Some);
            assert(farm.hands[u].holding->0 < reply);
        }
    }
    assert forall|r: nat| r < after.scheduler.next_row implies (
    #[trigger] after.scheduler.rows[r as int]) is Some || held(after, r) by {
        if r == reply {
            assert(after.hands[w].holding == Some(r));
        } else if farm.hands[w].holding == Some(r) {
        } else if farm.scheduler.rows[r as int] is Some {
        } else {
            assert(held(farm, r));
            let v = choose|v: int|
                0 <= v < farm.hands.len() && #[trigger] farm.hands[v].holding == Some(r);
            assert(after.hands[v].holding == Some(r));
        }
    }
    assert forall|r: nat|
        r < after.scheduler.height && (#[trigger] after.scheduler.rows[r as int])
            is Some implies after.scheduler.rows[r as int] == Some(shades(r)) by {
        if farm.hands[w].holding != Some(r) {
            assert(farm.scheduler.rows[r as int] is Some);
        }
    }
}

/// Every farm that the workers can reach by keeping to the protocol is
/// consistent, and keeps its workers and its image size.
pub proof fn lemma_farm_consistent(
    width: nat,
    height: nat,
    workers: nat,
    schedule: Seq<int>,
    shades: spec_fn(nat) -> Seq<u8>,
)
    requires
        fits(shades, width, height),
    ensures
        consistent(farm_after(width, height, workers, schedule, shades), shades),
        farm_after(width, height, workers, schedule, shades).hands.len() == workers,
        farm_after(width, height, workers, schedule, shades).scheduler.width == width,
        farm_after(width, height, workers, schedule, shades).scheduler.height == height,
    decreases schedule.len(),
{
    if schedule.len() > 0 {
        let before = farm_after(width, height, workers, schedule.drop_last(), shades);
        lemma_farm_consistent(width, height, workers, schedule.drop_last(), shades);
        if live(before, schedule.last()) {
            lemma_exchange(before, schedule.last(), shades);
        }
    }
}

/// The scheduler never has to refuse. Whatever the order of the exchanges
/// so far, the next request of any worker that has not stopped is accepted.
pub proof fn lemma_never_refused(
    width: nat,
    height: nat,
    workers: nat,
    schedule: Seq<int>,
    shades: spec_fn(nat) -> Seq<u8>,
    w: int,
)
    requires
        fits(shades, width, height),
        live(farm_after(width, height, workers, schedule, shades), w),
    ensures
        ({
            let farm = farm_after(width, height, workers, schedule, shades);
            farm.scheduler.rejects(request_of(farm.hands[w], shades)) is None
        }),
{
    lemma_farm_consistent(width, height, workers, schedule, shades);
    lemma_exchange(farm_after(width, height, workers, schedule, shades), w, shades);
}

/// Row coverage, whatever the order. Once every worker of a farm has
/// stopped, and there is at least one, the image is complete: every row is
/// in the grid, as the kernel computes it.
pub proof fn lemma_all_stopped_is_complete(
    width: nat,
    height: nat,
    workers: nat,
    schedule: Seq<int>,
    shades: spec_fn(nat) -> Seq<u8>,
)
    requires
        fits(shades, width, height),
        workers >= 1,
        forall|w: int|
            0 <= w < workers ==> (#[trigger] farm_after(
                width,
                height,
                workers,
                schedule,
                shades,
            ).hands[w]).stopped,
    ensures
        farm_after(width, height, workers, schedule, shades).scheduler.complete(),
        farm_after(width, height, workers, schedule, shades).scheduler.rows == Seq::new(
            height,
            |r: int| Some(shades(r as nat)),
        ),
{
    let farm = farm_after(width, height, workers, schedule, shades);
    lemma_farm_consistent(width, height, workers, schedule, shades);
    assert(farm.hands[0].stopped);
    assert forall|r: int| 0 <= r < height implies (#[trigger] farm.scheduler.rows[r]) is Some by {
        if held(farm, r as nat) {
            let w = choose|w: int|
                0 <= w < farm.hands.len() && #[trigger] farm.hands[w].holding == Some(r as nat);
            assert(farm.hands[w].stopped);
        }
    }
    lemma_filled_count_full(farm.scheduler.rows);
    assert forall|r: int| 0 <= r < height implies farm.scheduler.rows[r] == Some(
        shades(r as nat),
    ) by {
        assert(farm.scheduler.rows[r] is Some);
    }
    assert(farm.scheduler.rows =~= Seq::new(height, |r: int| Some(shades(r as nat))));
}

/// Termination under surplus workers. A worker whose first request comes
/// after the last row has been handed out is stopped by that very exchange,
/// without computing anything, and the scheduler is left as it was.
pub proof fn lemma_surplus_worker_stops_at_once(
    farm: Farm,
    w: int,
    shades: spec_fn(nat) -> Seq<u8>,
)
    requires
        consistent(farm, shades),
        live(farm, w),
        farm.hands[w].holding is None,
        farm.scheduler.next_row == farm.scheduler.height,
    ensures
        exchange(farm, w, shades).hands[w] == (Hand { stopped: true, holding: None }),
        exchange(farm, w, shades).scheduler == farm.scheduler,
{
}

/// No row is lost on the way. In a farm whose workers hold nothing, every
/// row that was handed out is in the grid.
pub proof fn lemma_nothing_held_nothing_missing(farm: Farm, shades: spec_fn(nat) -> Seq<u8>)
    requires
        consistent(farm, shades),
        forall|w: int| 0 <= w < farm.hands.len() ==> (#[trigger] farm.hands[w]).holding is None,
    ensures
        forall|r: int|
            0 <= r < farm.scheduler.next_row ==> (#[trigger] farm.scheduler.rows[r]) is Some,
{
    assert forall|r: int| 0 <= r < farm.scheduler.next_row implies (
    #[trigger] farm.scheduler.rows[r]) is Some by {
        if held(farm, r as nat) {
            let w = choose|w: int|
                0 <= w < farm.hands.len() && #[trigger] farm.hands[w].holding == Some(r as nat);
            assert(farm.hands[w].holding is None);
        }
    }
}

} // verus!
