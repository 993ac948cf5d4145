//! The search pool's coordination core, as a state machine over plain
//! values.  A worker record holds what the pool hands to one search
//! thread: its counters, its flags, and its root-move list; the pool
//! holds the ordered workers (index 0 is the primary), the two re-armable
//! wake gates and the global stop flag.
//!
//! The functions here are the pool's decisions: what a start, a stop, a
//! resize and a teardown do to that state.  The operating-system shell
//! around them — spawning threads, blocking on gates, joining handles —
//! performs exactly these transitions and cannot stand in verified code;
//! the ordering guarantees live here.

use vstd::prelude::*;

use crate::board::Board;
use crate::moves::BitMove;

verus! {

/// The hard ceiling on worker count.
pub const MAX_THREADS: usize = 256;

/// A search budget, forwarded to every worker without interpretation:
/// a fixed depth, a fixed node count, a fixed time in milliseconds, or
/// a tournament clock of base and increment milliseconds.
#[derive(Clone, Copy, PartialEq, Eq, Structural, Debug)]
pub enum Limits {
    Depth(u16),
    Nodes(u64),
    MoveTime(u64),
    TimeControl(u64, u64),
}

/// What the pool knows about one worker.
pub struct WorkerModel {
    /// Position in the pool; 0 is the primary worker.
    pub id: usize,
    /// Set when the worker must exit its idle loop for good.
    pub kill: bool,
    /// Nodes searched in the current round.
    pub nodes: u64,
    /// Deepest completed search depth of the current round.
    pub depth_completed: u16,
    /// This worker's own copy of the position to search.
    pub board: Board,
    /// The search budget of the current round.
    pub limits: Limits,
    /// The root moves this worker searches.
    pub root_moves: Vec<BitMove>,
    /// Which start round the root moves belong to.
    pub round: u64,
}

/// The nodes of the first `n` workers, saturating at the word limit.
pub open spec fn sum_nodes(ws: Seq<WorkerModel>, n: int) -> int
    decreases n,
{
    if n <= 0 {
        0
    } else {
        sum_nodes(ws, n - 1) + ws[n - 1].nodes
    }
}

/// The pool's coordination state.
pub struct PoolModel {
    /// The workers, primary first.
    pub workers: Vec<WorkerModel>,
    /// Whether the primary worker's wake gate stands open.
    pub main_gate_open: bool,
    /// Whether the other workers' shared wake gate stands open.
    pub rest_gate_open: bool,
    /// The cooperative stop flag every search polls.
    pub stop: bool,
    /// How many searches have been started.
    pub round: u64,
}

/// Workers numbered by their position.
pub open spec fn ids_ascending(ws: Seq<WorkerModel>) -> bool {
    forall|i: int| 0 <= i < ws.len() ==> #[trigger] ws[i].id == i
}

/// A torn-down pool: no workers, stop set, both gates left open so no
/// late waiter can miss the signal.
pub open spec fn torn_down(p: PoolModel) -> bool {
    p.workers@.len() == 0 && p.stop && p.main_gate_open && p.rest_gate_open
}

impl PoolModel {
    /// A pool of `n` fresh workers, gates closed, stop set, as after
    /// construction; the count is clamped into `1..=MAX_THREADS`.
    pub fn new_model(n: usize) -> (r: PoolModel)
        ensures
            r.workers@.len() == (if n < 1 {
                1int
            } else if n > 256 {
                256int
            } else {
                n as int
            }),
            ids_ascending(r.workers@),
            !r.main_gate_open,
            !r.rest_gate_open,
            r.stop,
            r.round == 0,
            forall|i: int|
                0 <= i < r.workers@.len() ==> !(#[trigger] r.workers@[i]).kill && r.workers@[i].nodes
                    == 0,
    {
        let count = if n < 1 {
            1
        } else if n > MAX_THREADS {
            MAX_THREADS
        } else {
            n
        };
        let mut workers: Vec<WorkerModel> = Vec::new();
        let mut i: usize = 0;
        while i < count
            invariant
                workers@.len() == i,
                i <= count,
                ids_ascending(workers@),
                forall|j: int|
                    0 <= j < i ==> !(#[trigger] workers@[j]).kill && workers@[j].nodes == 0,
            decreases count - i,
        {
            let w = WorkerModel {
                id: i,
                kill: false,
                nodes: 0,
                depth_completed: 0,
                board: Board::start_position(),
                limits: Limits::Depth(1),
                root_moves: Vec::new(),
                round: 0,
            };
            workers.push(w);
            i = i + 1;
        }
        PoolModel { workers, main_gate_open: false, rest_gate_open: false, stop: true, round: 0 }
    }

    /// How many workers the pool holds.
    pub fn size(&self) -> (r: usize)
        ensures
            r == self.workers@.len(),
    {
        self.workers.len()
    }

    /// Sets the stop flag the searches poll.
    pub fn set_stop(&mut self, stop: bool)
        ensures
            final(self).stop == stop,
            final(self).workers == old(self).workers,
            final(self).round == old(self).round,
    {
        self.stop = stop;
    }

    /// Tears the pool down: sets the stop flag, marks every worker
    /// killed, opens both gates so an idle worker can observe its flag,
    /// and drops every worker record.  The shell joins each thread —
    /// every one of them, even if an earlier join failed — before its
    /// record is dropped here.  Tearing down a torn-down pool changes
    /// nothing.
    pub fn kill_all(&mut self)
        ensures
            torn_down(*final(self)),
            final(self).round == old(self).round,
    {
        self.stop = true;
        let n = self.workers.len();
        let mut i: usize = 0;
        while i < n
            invariant
                i <= n,
                n == self.workers@.len(),
                self.stop,
                self.round == old(self).round,
                forall|j: int| 0 <= j < i ==> (#[trigger] self.workers@[j]).kill,
            decreases n - i,
        {
            let w = &mut self.workers[i];
            w.kill = true;
            i = i + 1;
        }
        self.main_gate_open = true;
        self.rest_gate_open = true;
        self.workers = Vec::new();
    }

    /// Resizes the pool: clamps the count into `1..=MAX_THREADS`, waits
    /// out any search (the shell's part), tears the workers down and
    /// attaches fresh ones.
    pub fn set_thread_count(&mut self, num: usize)
        ensures
            final(self).workers@.len() == (if num < 1 {
                1int
            } else if num > 256 {
                256int
            } else {
                num as int
            }),
            ids_ascending(final(self).workers@),
            final(self).round == old(self).round,
    {
        let count = if num < 1 {
            1
        } else if num > MAX_THREADS {
            MAX_THREADS
        } else {
            num
        };
        self.kill_all();
        let mut i: usize = 0;
        while i < count
            invariant
                self.workers@.len() == i,
                i <= count,
                ids_ascending(self.workers@),
                self.round == old(self).round,
            decreases count - i,
        {
            let w = WorkerModel {
                id: i,
                kill: false,
                nodes: 0,
                depth_completed: 0,
                board: Board::start_position(),
                limits: Limits::Depth(1),
                root_moves: Vec::new(),
                round: 0,
            };
            self.workers.push(w);
            i = i + 1;
        }
    }

    /// Starts a round: requires a non-empty root-move list, clears the
    /// stop flag, resets every worker and hands each one the fresh list
    /// before the primary worker wakes — so no worker can observe state
    /// from an earlier round once the start returns.  The shell wakes
    /// the primary worker, awaits its start signal, and re-arms the
    /// latch for the next round.
    pub fn uci_search(&mut self, board: &Board, limits: Limits, root_moves: &Vec<BitMove>)
        requires
            board.wf(),
            root_moves@.len() > 0,
            old(self).round < u64::MAX,
        ensures
            !final(self).stop,
            final(self).round == old(self).round + 1,
            final(self).workers@.len() == old(self).workers@.len(),
            !final(self).main_gate_open,
            forall|i: int|
                0 <= i < final(self).workers@.len() ==> (#[trigger] final(self).workers@[i]).round
                    == final(self).round && final(self).workers@[i].root_moves@ == root_moves@
                    && final(self).workers@[i].nodes == 0
                    && final(self).workers@[i].depth_completed == 0
                    && final(self).workers@[i].limits == limits
                    && final(self).workers@[i].board.wf()
                    && final(self).workers@[i].board.placement() == board.placement()
                    && final(self).workers@[i].board.turn == board.turn
                    && final(self).workers@[i].board.depth == 0,
    {
        self.stop = false;
        self.round = self.round + 1;
        let n = self.workers.len();
        let mut i: usize = 0;
        while i < n
            invariant
                i <= n,
                n == self.workers@.len(),
                !self.stop,
                board.wf(),
                self.round == old(self).round + 1,
                forall|j: int|
                    0 <= j < i ==> (#[trigger] self.workers@[j]).round == self.round
                        && self.workers@[j].root_moves@ == root_moves@ && self.workers@[j].nodes
                        == 0 && self.workers@[j].depth_completed == 0 && self.workers@[j].limits
                        == limits && self.workers@[j].board.wf()
                        && self.workers@[j].board.placement() == board.placement()
                        && self.workers@[j].board.turn == board.turn
                        && self.workers@[j].board.depth == 0,
            decreases n - i,
        {
            let fresh = copy_moves(root_moves);
            let copy = board.shallow_clone();
            let w = &mut self.workers[i];
            w.nodes = 0;
            w.depth_completed = 0;
            w.board = copy;
            w.limits = limits;
            w.root_moves = fresh;
            w.round = self.round;
            i = i + 1;
        }
        // The shell wakes the primary worker here, awaits its start
        // signal, and re-arms the latch for the next round.
        self.main_gate_open = false;
    }

    /// The best move of the last finished search: the head of the
    /// primary worker's root-move list.
    pub fn best_move(&self) -> (r: Option<BitMove>)
        ensures
            self.workers@.len() > 0 && self.workers@[0].root_moves@.len() > 0 ==> r == Some(
                self.workers@[0].root_moves@[0],
            ),
            !(self.workers@.len() > 0 && self.workers@[0].root_moves@.len() > 0) ==> r is None,
    {
        if self.workers.len() > 0 {
            let w = &self.workers[0];
            if w.root_moves.len() > 0 {
                let m = w.root_moves[0];
                return Some(m);
            }
        }
        None
    }

    /// Total nodes searched over all workers: the per-worker counters
    /// summed, saturating at the word limit.
    pub fn nodes(&self) -> (r: u64)
        ensures
            r as int == (if sum_nodes(self.workers@, self.workers@.len() as int) <= u64::MAX {
                sum_nodes(self.workers@, self.workers@.len() as int)
            } else {
                u64::MAX as int
            }),
    {
        let mut sum: u64 = 0;
        let mut i: usize = 0;
        let n = self.workers.len();
        while i < n
            invariant
                i <= n,
                n == self.workers@.len(),
                sum as int == (if sum_nodes(self.workers@, i as int) <= u64::MAX {
                    sum_nodes(self.workers@, i as int)
                } else {
                    u64::MAX as int
                }),
            decreases n - i,
        {
            let nd = self.workers[i].nodes;
            if sum <= u64::MAX - nd {
                sum = sum + nd;
            } else {
                sum = u64::MAX;
            }
            proof {
                lemma_sum_nodes_nonneg(self.workers@, i as int);
            }
            i = i + 1;
        }
        sum
    }
}

/// The node sum never goes negative.
proof fn lemma_sum_nodes_nonneg(ws: Seq<WorkerModel>, n: int)
    ensures
        sum_nodes(ws, n) >= 0,
    decreases n,
{
    if n > 0 {
        lemma_sum_nodes_nonneg(ws, n - 1);
    }
}

/// Copies a move list.
fn copy_moves(v: &Vec<BitMove>) -> (r: Vec<BitMove>)
    ensures
        r@ == v@,
{
    let mut r: Vec<BitMove> = Vec::new();
    let mut i: usize = 0;
    let n = v.len();
    while i < n
        invariant
            i <= n,
            n == v@.len(),
            r@.len() == i,
            forall|j: int| 0 <= j < i ==> #[trigger] r@[j] == v@[j],
        decreases n - i,
    {
        let m = v[i];
        r.push(m);
        i = i + 1;
    }
    proof {
        assert(r@ =~= v@);
    }
    r
}

/// Tearing down twice is a no-op the second time: a pool that already
/// satisfies the teardown contract is left exactly torn down, with the
/// same round counter, by another teardown.
pub proof fn lemma_kill_all_idempotent(before: PoolModel, after: PoolModel)
    requires
        torn_down(before),
        torn_down(after),
        after.round == before.round,
    ensures
        after.workers@ =~= before.workers@,
        after.stop == before.stop,
        after.main_gate_open == before.main_gate_open,
        after.rest_gate_open == before.rest_gate_open,
        after.round == before.round,
{
}

} // verus!
