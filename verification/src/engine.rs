//! The simulation as a whole: the board, what is pending, and the phase the
//! run is in.

use vstd::prelude::*;
use crate::cell::{fresh, is_tree_state, BoardCell, TreeState, MAX_BURNING_AGE};
use crate::census::{is_snapshot, occupant_count, snapshot, tree_squares};
use crate::grid::Grid;
use crate::pending::{with_fire, with_tree, Pending};
use crate::position::{in_bounds, is_on_board, Point};
use crate::resolve::Board;
use crate::scheduler::{advance, advanced};

verus! {

/// Number of trees that must stand before the simulation starts to run.
pub const SETUP_COUNT: usize = 8;

/// The phase of a run.
#[derive(Clone, Copy, Debug, PartialEq, Eq, Structural)]
pub enum Phase {
    /// Trees are being placed; nothing ticks.
    Setup,
    /// The simulation ticks.
    Running,
    /// The run is over; nothing changes until a reset.
    Ended,
}

/// The simulation: it owns the board and the pending changes.
pub struct Engine {
    board: Board,
    pending: Pending,
    phase: Phase,
    period: u64,
    last_tick: u64,
}

impl Engine {
    /// The board.
    pub closed spec fn grid(&self) -> Board {
        self.board
    }

    /// The pending changes.
    pub closed spec fn queue(&self) -> Pending {
        self.pending
    }

    /// The phase of the run.
    pub closed spec fn state(&self) -> Phase {
        self.phase
    }

    /// The time that must pass between two ticks.
    pub closed spec fn interval(&self) -> u64 {
        self.period
    }

    /// The time of the last tick, or of the engine's making.
    pub closed spec fn clock(&self) -> u64 {
        self.last_tick
    }

    /// The board and the pending changes are whole.
    pub open spec fn wf(&self) -> bool {
        self.grid().wf() && self.queue().wf()
    }

    /// Whether a tick is due at the time `now`: the run is on, and more than
    /// the interval has passed since the last tick.
    pub open spec fn is_due(&self, now: u64) -> bool {
        self.state() == Phase::Running && now - self.clock() > self.interval()
    }

    /// Whether `other` has the same board as this engine.
    pub open spec fn same_grid(&self, other: &Engine) -> bool {
        other.grid() == self.grid()
    }

    /// Whether `other` has the same interval and clock as this engine.
    pub open spec fn same_timing(&self, other: &Engine) -> bool {
        other.interval() == self.interval() && other.clock() == self.clock()
    }

    /// Whether `other` differs from this engine in nothing.
    pub open spec fn same_as(&self, other: &Engine) -> bool {
        &&& self.same_grid(other)
        &&& self.same_timing(other)
        &&& other.queue() == self.queue()
        &&& other.state() == self.state()
    }

    /// An engine in the setup phase with an empty board and nothing pending,
    /// which is to tick once more than `period` has passed, counted from `now`.
    pub fn new(period: u64, now: u64) -> (engine: Engine)
        ensures
            engine.wf(),
            engine.grid().is_empty(),
            engine.queue().is_empty(),
            engine.state() == Phase::Setup,
            engine.interval() == period,
            engine.clock() == now,
    {
        Engine { board: Grid::new(), pending: Pending::new(), phase: Phase::Setup, period, last_tick: now }
    }

    /// A running engine on the given board with the given changes pending.
    pub fn resume(board: Board, pending: Pending, period: u64, now: u64) -> (engine: Engine)
        requires
            board.wf(),
            pending.wf(),
        ensures
            engine.wf(),
            engine.grid() == board,
            engine.queue() == pending,
            engine.state() == Phase::Running,
            engine.interval() == period,
            engine.clock() == now,
    {
        Engine { board, pending, phase: Phase::Running, period, last_tick: now }
    }

    /// The phase of the run.
    pub fn phase(&self) -> (phase: Phase)
        ensures
            phase == self.state(),
    {
        self.phase
    }

    /// The board, to read.
    pub fn board(&self) -> (board: &Board)
        ensures
            *board == self.grid(),
    {
        &self.board
    }

    /// The pending changes, to read.
    pub fn pending(&self) -> (pending: &Pending)
        ensures
            *pending == self.queue(),
    {
        &self.pending
    }

    /// What stands on the square `position`; nothing for a point off the board.
    pub fn cell_at(&self, position: Point) -> (slot: Option<BoardCell>)
        requires
            self.wf(),
        ensures
            slot == self.grid().at(position),
    {
        if is_on_board(position) {
            self.board.get(position)
        } else {
            proof {
                self.board.lemma_off_board(position);
            }
            None
        }
    }

    /// Advances the simulation by one tick if one is due at the time `now`,
    /// and does nothing otherwise. A tick that is run leaves nothing pending
    /// and sets the clock to `now`.
    pub fn tick(&mut self, now: u64)
        requires
            old(self).wf(),
        ensures
            final(self).wf(),
            final(self).state() == old(self).state(),
            final(self).interval() == old(self).interval(),
            old(self).is_due(now) ==> {
                &&& advanced(old(self).grid(), old(self).queue(), final(self).grid())
                &&& final(self).queue().is_empty()
                &&& final(self).clock() == now
            },
            !old(self).is_due(now) ==> old(self).same_as(final(self)),
    {
        let running: bool = match self.phase {
            Phase::Running => true,
            _ => false,
        };
        if running && now > self.last_tick && now - self.last_tick > self.period {
            self.last_tick = now;
            advance(&mut self.board, &mut self.pending);
        }
    }

    /// Plants a tree of the given kind, at the start of its life, on the square
    /// `position`. A point off the board and a kind that is no tree are
    /// ignored, as is any planting once the run has ended.
    ///
    /// During setup the tree is written at once, and the run starts as soon as
    /// `SETUP_COUNT` trees stand. While the simulation runs the planting is
    /// queued for the next tick, where a tree queued earlier for the square
    /// goes first.
    pub fn mutate_plant(&mut self, position: Point, tree_state: TreeState)
        requires
            old(self).wf(),
        ensures
            final(self).wf(),
            match old(self).state() {
                Phase::Setup => if in_bounds(position) && is_tree_state(tree_state) {
                    &&& final(self).grid().at(position) == Some(fresh(tree_state))
                    &&& forall|q: Point|
                        q != position ==> #[trigger] final(self).grid().at(q) == old(self).grid().at(q)
                    &&& final(self).state() == if tree_squares(final(self).grid()).len() >= SETUP_COUNT {
                        Phase::Running
                    } else {
                        Phase::Setup
                    }
                    &&& final(self).queue() == old(self).queue()
                    &&& old(self).same_timing(final(self))
                } else {
                    old(self).same_as(final(self))
                },
                Phase::Running => {
                    &&& with_tree(old(self).queue(), final(self).queue(), position, tree_state)
                    &&& final(self).state() == Phase::Running
                    &&& old(self).same_grid(final(self))
                    &&& old(self).same_timing(final(self))
                },
                Phase::Ended => old(self).same_as(final(self)),
            },
    {
        match self.phase {
            Phase::Setup => {
                if tree_state.is_tree() && is_on_board(position) {
                    self.board.set(position, BoardCell::fresh(tree_state));
                    if occupant_count(&self.board) >= SETUP_COUNT {
                        self.phase = Phase::Running;
                    }
                }
            },
            Phase::Running => {
                self.pending.queue_plant(position, tree_state);
            },
            Phase::Ended => {},
        }
    }

    /// Sets the square `position` alight: queues a fire at the start of its
    /// life for the next tick, where it takes hold only if a living tree stands
    /// on the square by then. Ignored unless the simulation runs, and for a
    /// point off the board; a fire queued earlier for the square goes first.
    pub fn mutate_ignite(&mut self, position: Point)
        requires
            old(self).wf(),
        ensures
            final(self).wf(),
            match old(self).state() {
                Phase::Running => {
                    &&& with_fire(old(self).queue(), final(self).queue(), position, MAX_BURNING_AGE)
                    &&& final(self).state() == Phase::Running
                    &&& old(self).same_grid(final(self))
                    &&& old(self).same_timing(final(self))
                },
                _ => old(self).same_as(final(self)),
            },
    {
        match self.phase {
            Phase::Running => {
                self.pending.queue_ignite(position, MAX_BURNING_AGE);
            },
            _ => {},
        }
    }

    /// Ends a running simulation. In any other phase nothing happens.
    pub fn quit(&mut self)
        ensures
            old(self).same_grid(final(self)),
            old(self).same_timing(final(self)),
            final(self).queue() == old(self).queue(),
            final(self).state() == if old(self).state() == Phase::Running {
                Phase::Ended
            } else {
                old(self).state()
            },
    {
        match self.phase {
            Phase::Running => {
                self.phase = Phase::Ended;
            },
            _ => {},
        }
    }

    /// Clears the board and returns to the setup phase. What is pending stays
    /// pending, and the clock is not touched.
    pub fn reset(&mut self)
        requires
            old(self).wf(),
        ensures
            final(self).wf(),
            final(self).grid().is_empty(),
            final(self).state() == Phase::Setup,
            final(self).queue() == old(self).queue(),
            old(self).same_timing(final(self)),
    {
        self.board.wipe();
        self.phase = Phase::Setup;
    }

    /// The occupied squares, each once with its occupant, in the order in
    /// which the board is walked.
    pub fn snapshot(&self) -> (list: Vec<(Point, BoardCell)>)
        requires
            self.wf(),
        ensures
            is_snapshot(self.grid(), list@),
    {
        snapshot(&self.board)
    }

    /// The number of living trees on the board.
    pub fn occupant_count(&self) -> (count: usize)
        requires
            self.wf(),
        ensures
            tree_squares(self.grid()).finite(),
            count == tree_squares(self.grid()).len(),
    {
        occupant_count(&self.board)
    }
}

} // verus!
