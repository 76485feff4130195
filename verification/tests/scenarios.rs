use fractal_scheduler::protocol::{Rank, RowMessage};
use fractal_scheduler::scheduler::Scheduler;
use fractal_scheduler::worker::{compute_row_with, Worker, WorkerState};

fn stub_kernel(x: u32, y: u32) -> u32 {
    (x + y) % 16
}

struct Farm {
    scheduler: Scheduler,
    workers: Vec<Worker>,
    pending: Vec<Option<RowMessage>>,
    width: u32,
    /// For each exchange: who asked, and what the answer was.
    replies: Vec<(Rank, u32)>,
    /// For each worker: the rows it computed.
    computed: Vec<Vec<u32>>,
}

fn farm(width: u32, height: u32, workers: usize) -> Farm {
    Farm {
        scheduler: Scheduler::new(width, height).unwrap(),
        workers: (0..workers).map(|_| Worker::new(width, height)).collect(),
        pending: (0..workers).map(|_| None).collect(),
        width,
        replies: Vec::new(),
        computed: (0..workers).map(|_| Vec::new()).collect(),
    }
}

/// One exchange of worker `w` with the scheduler, and the row it then computes.
fn exchange(farm: &mut Farm, w: usize) {
    assert_eq!(farm.workers[w].state(), WorkerState::Requesting);
    let rank = (w + 1) as Rank;
    let reply = farm.scheduler.handle(rank, farm.pending[w].take()).unwrap();
    assert_eq!(reply.to, rank);
    farm.replies.push((rank, reply.next_row));
    if let Some(row) = farm.workers[w].on_reply(reply.next_row).unwrap() {
        let data = compute_row_with(farm.width, row, &stub_kernel);
        farm.pending[w] = Some(farm.workers[w].finish_row(data).unwrap());
        farm.computed[w].push(row);
    }
}

fn all_terminated(farm: &Farm) -> bool {
    farm.workers.iter().all(|w| w.state() == WorkerState::Terminated)
}

/// Runs the farm to the end, letting `pick` choose who asks next.
fn run_to_end(farm: &mut Farm, mut pick: impl FnMut(usize) -> usize) {
    let mut turn = 0;
    while !all_terminated(farm) {
        let mut w = pick(turn) % farm.workers.len();
        while farm.workers[w].state() == WorkerState::Terminated {
            w = (w + 1) % farm.workers.len();
        }
        exchange(farm, w);
        turn += 1;
        assert!(turn < 10_000);
    }
}

fn scrambled(seed: u64) -> impl FnMut(usize) -> usize {
    let mut state = seed;
    move |_turn| {
        state = state.wrapping_mul(6364136223846793005).wrapping_add(1442695040888963407);
        (state >> 33) as usize
    }
}

fn expected_bytes_4_by_2() -> Vec<u8> {
    vec![
        0, 0, 0, 66, 30, 15, 25, 7, 26, 9, 1, 47, // row 0: shades 0 1 2 3
        66, 30, 15, 25, 7, 26, 9, 1, 47, 4, 4, 73, // row 1: shades 1 2 3 4
    ]
}

#[test]
fn two_workers_four_by_two_first_worker_leads() {
    let mut f = farm(4, 2, 2);
    run_to_end(&mut f, |turn| turn);
    assert!(f.scheduler.is_complete());
    assert_eq!(f.scheduler.row(0), Some(&vec![0, 1, 2, 3]));
    assert_eq!(f.scheduler.row(1), Some(&vec![1, 2, 3, 4]));
    assert_eq!(f.scheduler.assemble().unwrap().into_bytes(), expected_bytes_4_by_2());
    assert_eq!(f.computed, vec![vec![0], vec![1]]);
}

#[test]
fn two_workers_four_by_two_second_worker_leads() {
    let mut f = farm(4, 2, 2);
    run_to_end(&mut f, |turn| turn + 1);
    assert!(f.scheduler.is_complete());
    assert_eq!(f.scheduler.assemble().unwrap().into_bytes(), expected_bytes_4_by_2());
    assert_eq!(f.computed, vec![vec![1], vec![0]]);
}

#[test]
fn two_workers_four_by_two_one_worker_does_it_all() {
    let mut f = farm(4, 2, 2);
    exchange(&mut f, 0);
    exchange(&mut f, 0);
    exchange(&mut f, 0);
    assert!(f.scheduler.is_complete());
    exchange(&mut f, 1);
    assert!(all_terminated(&f));
    assert_eq!(f.scheduler.assemble().unwrap().into_bytes(), expected_bytes_4_by_2());
    assert_eq!(f.computed, vec![vec![0, 1], vec![]]);
}

#[test]
fn two_workers_four_by_two_rows_arrive_out_of_order() {
    let mut f = farm(4, 2, 2);
    exchange(&mut f, 0);
    exchange(&mut f, 1);
    exchange(&mut f, 1);
    assert_eq!(f.scheduler.rows_done(), 1);
    assert!(f.scheduler.row(0).is_none());
    exchange(&mut f, 0);
    assert!(f.scheduler.is_complete());
    assert_eq!(f.scheduler.assemble().unwrap().into_bytes(), expected_bytes_4_by_2());
}

#[test]
fn two_workers_four_by_two_any_interleaving() {
    for seed in 0..50 {
        let mut f = farm(4, 2, 2);
        run_to_end(&mut f, scrambled(seed));
        assert!(f.scheduler.is_complete());
        assert_eq!(f.scheduler.assemble().unwrap().into_bytes(), expected_bytes_4_by_2());
    }
}

#[test]
fn single_row_single_worker() {
    let mut f = farm(3, 1, 1);
    run_to_end(&mut f, |turn| turn);
    assert!(f.scheduler.is_complete());
    assert_eq!(f.replies, vec![(1, 0), (1, 1)]);
    assert_eq!(f.computed, vec![vec![0]]);
}

#[test]
fn single_row_many_workers() {
    for workers in 1..6 {
        let mut f = farm(3, 1, workers);
        run_to_end(&mut f, |turn| turn);
        assert!(f.scheduler.is_complete());
        let assignments = f.replies.iter().filter(|(_, next)| *next < 1).count();
        assert_eq!(assignments, 1);
        assert_eq!(f.computed[0], vec![0]);
        for w in 1..workers {
            assert!(f.computed[w].is_empty());
            let first = f.replies.iter().find(|(rank, _)| *rank == (w + 1) as Rank).unwrap();
            assert_eq!(first.1, 1);
        }
        assert_eq!(f.scheduler.row(0), Some(&vec![0, 1, 2]));
    }
}

#[test]
fn surplus_workers_are_told_to_stop_at_once() {
    let mut f = farm(2, 3, 7);
    run_to_end(&mut f, |turn| turn);
    assert!(f.scheduler.is_complete());
    assert_eq!(f.scheduler.rows_done(), 3);
    for w in 0..3 {
        assert_eq!(f.computed[w], vec![w as u32]);
    }
    for w in 3..7 {
        assert!(f.computed[w].is_empty());
        let asked: Vec<u32> = f
            .replies
            .iter()
            .filter(|(rank, _)| *rank == (w + 1) as Rank)
            .map(|(_, next)| *next)
            .collect();
        assert_eq!(asked, vec![3]);
    }
}

#[test]
fn surplus_workers_do_not_hold_up_completion() {
    let mut f = farm(2, 2, 5);
    exchange(&mut f, 4);
    exchange(&mut f, 3);
    exchange(&mut f, 2);
    exchange(&mut f, 1);
    exchange(&mut f, 0);
    assert_eq!(f.replies, vec![(5, 0), (4, 1), (3, 2), (2, 2), (1, 2)]);
    assert!(!f.scheduler.is_complete());
    exchange(&mut f, 3);
    exchange(&mut f, 4);
    assert!(f.scheduler.is_complete());
    assert!(all_terminated(&f));
    assert_eq!(f.computed, vec![vec![], vec![], vec![], vec![1], vec![0]]);
}

#[test]
fn every_row_is_handed_out_and_computed_exactly_once() {
    for seed in 0..40 {
        let height = 1 + (seed % 9) as u32;
        let workers = 1 + (seed % 4) as usize;
        let mut f = farm(5, height, workers);
        run_to_end(&mut f, scrambled(seed));
        assert!(f.scheduler.is_complete());
        assert_eq!(f.scheduler.rows_done(), height);
        let mut handed: Vec<u32> =
            f.replies.iter().map(|(_, next)| *next).filter(|next| *next < height).collect();
        assert_eq!(handed, (0..height).collect::<Vec<u32>>());
        handed.clear();
        for rows in &f.computed {
            handed.extend(rows.iter());
        }
        handed.sort();
        assert_eq!(handed, (0..height).collect::<Vec<u32>>());
        for y in 0..height {
            let want: Vec<u8> = (0..5).map(|x| ((x + y) % 16) as u8).collect();
            assert_eq!(f.scheduler.row(y), Some(&want));
        }
    }
}

#[test]
fn answers_never_decrease_and_end_in_the_height() {
    for seed in 0..40 {
        let height = (seed % 6) as u32;
        let mut f = farm(1, height, 3);
        run_to_end(&mut f, scrambled(seed));
        let answers: Vec<u32> = f.replies.iter().map(|(_, next)| *next).collect();
        for pair in answers.windows(2) {
            assert!(pair[0] <= pair[1]);
        }
        for (i, next) in answers.iter().enumerate() {
            assert_eq!(*next, (i as u32).min(height));
        }
        assert!(answers.len() >= 3);
        assert_eq!(*answers.last().unwrap(), height);
    }
}

#[test]
fn height_not_divisible_by_worker_count() {
    let mut f = farm(2, 7, 3);
    run_to_end(&mut f, |turn| turn);
    assert!(f.scheduler.is_complete());
    let total: usize = f.computed.iter().map(|rows| rows.len()).sum();
    assert_eq!(total, 7);
    assert_eq!(f.computed[0], vec![0, 3, 6]);
    assert_eq!(f.computed[1], vec![1, 4]);
    assert_eq!(f.computed[2], vec![2, 5]);
}

#[test]
fn worker_that_finishes_early_is_served_first() {
    let mut f = farm(1, 6, 2);
    exchange(&mut f, 0);
    exchange(&mut f, 1);
    for _ in 0..4 {
        exchange(&mut f, 0);
    }
    assert_eq!(f.computed[0], vec![0, 2, 3, 4, 5]);
    assert_eq!(f.computed[1], vec![1]);
    assert!(!f.scheduler.is_complete());
    exchange(&mut f, 0);
    exchange(&mut f, 1);
    assert!(f.scheduler.is_complete());
}
