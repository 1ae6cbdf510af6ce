//! One walk through the table of one problem: what the two commands,
//! solve and step, do to it, and what can be read from it.
//!
//! A session starts with nothing. Solving replaces whatever it holds by a
//! new instance with its table, all of it shown. Stepping starts a walk on
//! a new instance where there is none yet; where there is one it only moves
//! the count of shown cells, and the instance and its table stay as they
//! are.

use crate::backtrack::{backtrack_path, path_from};
use crate::cell::{cell_view, classify, CellView};
use crate::instance::{
    lemma_fits_bounds, rule_broken, validate, validated, InputError, InputErrorView, InstanceView,
    ProblemInstance,
};
use crate::knapsack::{is_table, lemma_table_of_is_table, table_of};
use crate::progress::{label_of, percent_of, progress, Progress};
use crate::reveal_state::{total_cells, RevealState};
use vstd::prelude::*;

verus! {

/// The instance at hand, if any, with its table, and how much is shown.
#[derive(Clone, Debug)]
pub struct Session {
    problem: Option<ProblemInstance>,
    table: Vec<Vec<usize>>,
    state: RevealState,
}

/// What a session holds.
pub struct SessionView {
    /// The instance, once there is one.
    pub instance: Option<InstanceView>,
    /// Its table; no rows while there is no instance.
    pub table: Seq<Seq<usize>>,
    /// How much of the table is shown.
    pub state: RevealState,
}

impl SessionView {
    /// The session in which nothing has been computed.
    pub open spec fn initial() -> SessionView {
        SessionView { instance: None, table: Seq::empty(), state: RevealState::NotStarted }
    }

    /// The session that holds `instance` with its table, in the given
    /// state.
    pub open spec fn showing(instance: InstanceView, state: RevealState) -> SessionView {
        SessionView {
            instance: Some(instance),
            table: table_of(instance.weights, instance.benefits, instance.capacity),
            state,
        }
    }

    /// The number of data cells of the table; 0 while there is none.
    pub open spec fn total_cells(self) -> nat {
        match self.instance {
            Some(instance) => total_cells(instance.weights.len(), instance.capacity),
            None => 0,
        }
    }

    /// Solving `instance` shows all of its table, whatever was there.
    pub open spec fn after_solve(self, instance: InstanceView) -> SessionView {
        Self::showing(instance, RevealState::AllRevealed)
    }

    /// The walk moves on by one cell; instance and table stay.
    pub open spec fn advanced(self) -> SessionView {
        SessionView {
            instance: self.instance,
            table: self.table,
            state: self.state.after_step(self.total_cells() as usize),
        }
    }

    /// A step with `instance` at hand: where nothing has been computed the
    /// walk starts on `instance` with one cell shown; otherwise `instance`
    /// is left aside and the walk moves on.
    pub open spec fn after_step(self, instance: InstanceView) -> SessionView {
        if self.instance is Some {
            self.advanced()
        } else {
            Self::showing(instance, RevealState::PartiallyRevealed(1))
        }
    }

    /// `k` steps, each with `instance` at hand.
    pub open spec fn after_steps(self, instance: InstanceView, k: nat) -> SessionView
        decreases k,
    {
        if k == 0 {
            self
        } else {
            self.after_steps(instance, (k - 1) as nat).after_step(instance)
        }
    }

    /// Solving what a form holds: an error changes nothing.
    pub open spec fn after_on_solve(
        self,
        input: Result<InstanceView, InputErrorView>,
    ) -> SessionView {
        match input {
            Ok(instance) => self.after_solve(instance),
            Err(_) => self,
        }
    }

    /// A step with a form at hand: the form counts only where nothing has
    /// been computed, and an error in it then changes nothing.
    pub open spec fn after_on_step(
        self,
        input: Result<InstanceView, InputErrorView>,
    ) -> SessionView {
        if self.instance is Some {
            self.advanced()
        } else {
            match input {
                Ok(instance) => self.after_step(instance),
                Err(_) => self,
            }
        }
    }

    /// What always holds of a session. Without an instance nothing has
    /// started and there is no table. With one, the instance meets the
    /// rules, the table is its table, the walk has started, and the count of
    /// shown cells is within the table.
    pub open spec fn wf(self) -> bool {
        match self.instance {
            None => self.state == RevealState::NotStarted && self.table.len() == 0,
            Some(instance) => {
                &&& rule_broken(instance.capacity, instance.weights, instance.benefits) is None
                &&& is_table(self.table, instance.weights, instance.benefits, instance.capacity)
                &&& self.state != RevealState::NotStarted
                &&& self.state.wf(self.total_cells() as usize)
            },
        }
    }
}

/// An instance that meets the rules has at least two data cells, and a
/// session that shows it, wholly or from its first cell, is as it should be.
pub proof fn lemma_showing_wf(instance: InstanceView, state: RevealState)
    requires
        rule_broken(instance.capacity, instance.weights, instance.benefits) is None,
        state == RevealState::AllRevealed || state == RevealState::PartiallyRevealed(1),
    ensures
        2 <= total_cells(instance.weights.len(), instance.capacity) <= usize::MAX,
        SessionView::showing(instance, state).wf(),
{
    lemma_fits_bounds(instance.capacity, instance.weights, instance.benefits);
    lemma_table_of_is_table(instance.weights, instance.benefits, instance.capacity);
    assert(total_cells(instance.weights.len(), instance.capacity) >= 2) by (nonlinear_arith)
        requires
            instance.weights.len() >= 1,
            instance.capacity >= 1,
    ;
}

/// Solve and step keep a session as it should be.
pub proof fn lemma_commands_keep_wf(session: SessionView, instance: InstanceView)
    requires
        session.wf(),
        rule_broken(instance.capacity, instance.weights, instance.benefits) is None,
    ensures
        session.after_solve(instance).wf(),
        session.after_step(instance).wf(),
{
    lemma_showing_wf(instance, RevealState::AllRevealed);
    lemma_showing_wf(instance, RevealState::PartiallyRevealed(1));
    if let Some(held) = session.instance {
        lemma_showing_wf(held, RevealState::AllRevealed);
    }
}

/// Solving always ends with the whole table of the new instance shown, and
/// what the session held before makes no difference.
pub proof fn lemma_solve_overrides(session: SessionView, instance: InstanceView)
    ensures
        session.after_solve(instance).state == RevealState::AllRevealed,
        session.after_solve(instance).instance == Some(instance),
        session.after_solve(instance) == SessionView::initial().after_solve(instance),
{
}

/// The walk from the start, in a table of `total` data cells: the first
/// step computes the table and shows one cell; each later step shows one
/// cell more, so that after `k <= total` steps `k` cells are shown; the
/// step after that shows everything; one more begins again with one cell.
/// Instance and table are those of the first step throughout.
pub proof fn lemma_session_walk(instance: InstanceView, k: nat)
    requires
        rule_broken(instance.capacity, instance.weights, instance.benefits) is None,
        1 <= k <= total_cells(instance.weights.len(), instance.capacity) + 2,
    ensures
        ({
            let total = total_cells(instance.weights.len(), instance.capacity);
            let session = SessionView::initial().after_steps(instance, k);
            &&& session.wf()
            &&& session.instance == Some(instance)
            &&& session.table == table_of(instance.weights, instance.benefits, instance.capacity)
            &&& k <= total ==> session.state == RevealState::PartiallyRevealed(k as usize)
            &&& k == total + 1 ==> session.state == RevealState::AllRevealed
            &&& k == total + 2 ==> session.state == RevealState::PartiallyRevealed(1)
        }),
    decreases k,
{
    lemma_showing_wf(instance, RevealState::PartiallyRevealed(1));
    if k > 1 {
        lemma_session_walk(instance, (k - 1) as nat);
        let before = SessionView::initial().after_steps(instance, (k - 1) as nat);
        lemma_commands_keep_wf(before, instance);
    }
}

impl View for Session {
    type V = SessionView;

    closed spec fn view(&self) -> SessionView {
        SessionView {
            instance: match self.problem {
                Some(problem) => Some(problem@),
                None => None,
            },
            table: self.table.deep_view(),
            state: self.state,
        }
    }
}

impl Session {
    /// The invariant of a session: see `SessionView::wf`.
    pub open spec fn wf(&self) -> bool {
        self@.wf()
    }

    /// A session in which nothing has been computed.
    pub fn new() -> (session: Session)
        ensures
            session.wf(),
            session@ == SessionView::initial(),
    {
        let session = Session { problem: None, table: Vec::new(), state: RevealState::NotStarted };
        assert(session.table.deep_view() =~= Seq::<Seq<usize>>::empty());
        session
    }

    /// Puts `instance` and its table in place of what the session holds,
    /// in the given state.
    fn load(&mut self, instance: ProblemInstance, state: RevealState)
        requires
            instance.wf(),
            state == RevealState::AllRevealed || state == RevealState::PartiallyRevealed(1),
        ensures
            final(self).wf(),
            final(self)@ == SessionView::showing(instance@, state),
    {
        proof {
            lemma_showing_wf(instance@, state);
        }
        let table = instance.table();
        self.problem = Some(instance);
        self.table = table;
        self.state = state;
    }

    /// Solves `instance`: the session then holds it, with its table, all
    /// shown, whatever it held before.
    pub fn solve(&mut self, instance: ProblemInstance)
        requires
            instance.wf(),
        ensures
            final(self).wf(),
            final(self)@ == old(self)@.after_solve(instance@),
    {
        self.load(instance, RevealState::AllRevealed);
    }

    /// Moves the walk on by one cell; `RevealState::after_step` says how.
    /// The instance and the table stay as they are.
    pub fn advance(&mut self)
        requires
            old(self).wf(),
            old(self)@.instance is Some,
        ensures
            final(self).wf(),
            final(self)@ == old(self)@.advanced(),
    {
        let total = self.total_cells();
        proof {
            lemma_showing_wf(self@.instance->0, RevealState::AllRevealed);
        }
        self.state = self.state.step(total);
    }

    /// Takes one step. Where nothing has been computed yet, the session
    /// takes up `instance` with its table and shows the first data cell.
    /// Otherwise `instance` is not looked at and the walk moves on by one
    /// cell in the table that is there.
    pub fn step(&mut self, instance: ProblemInstance)
        requires
            old(self).wf(),
            instance.wf(),
        ensures
            final(self).wf(),
            final(self)@ == old(self)@.after_step(instance@),
    {
        if self.started() {
            self.advance();
        } else {
            self.load(instance, RevealState::PartiallyRevealed(1));
        }
    }

    /// Reads the form and solves what it holds. On an error nothing
    /// changes.
    pub fn on_solve(&mut self, capacity: &str, weights: &str, benefits: &str) -> (r: Result<
        (),
        InputError,
    >)
        requires
            old(self).wf(),
        ensures
            final(self).wf(),
            final(self)@ == old(self)@.after_on_solve(validated(capacity@, weights@, benefits@)),
            match validated(capacity@, weights@, benefits@) {
                Ok(_) => r is Ok,
                Err(e) => r matches Err(returned) && returned@ == e && *final(self) == *old(self),
            },
    {
        match validate(capacity, weights, benefits) {
            Ok(instance) => {
                self.solve(instance);
                Ok(())
            },
            Err(e) => Err(e),
        }
    }

    /// Takes one step. Only where nothing has been computed yet is the
    /// form read, and on an error nothing changes. Otherwise the walk moves
    /// on in the table that is there, whatever the form holds.
    pub fn on_step(&mut self, capacity: &str, weights: &str, benefits: &str) -> (r: Result<
        (),
        InputError,
    >)
        requires
            old(self).wf(),
        ensures
            final(self).wf(),
            final(self)@ == old(self)@.after_on_step(validated(capacity@, weights@, benefits@)),
            old(self)@.instance is Some ==> r is Ok,
            old(self)@.instance is None ==> match validated(capacity@, weights@, benefits@) {
                Ok(_) => r is Ok,
                Err(e) => r matches Err(returned) && returned@ == e && *final(self) == *old(self),
            },
    {
        if self.started() {
            self.advance();
            return Ok(());
        }
        match validate(capacity, weights, benefits) {
            Ok(instance) => {
                self.step(instance);
                Ok(())
            },
            Err(e) => Err(e),
        }
    }

    /// Whether there is an instance with its table.
    pub fn started(&self) -> (r: bool)
        ensures
            r == self@.instance is Some,
    {
        self.problem.is_some()
    }

    /// How much of the table is shown.
    pub fn state(&self) -> (state: RevealState)
        ensures
            state == self@.state,
    {
        self.state
    }

    /// The instance, once there is one.
    pub fn instance(&self) -> (r: Option<&ProblemInstance>)
        ensures
            match r {
                Some(instance) => self@.instance == Some(instance@) && (self.wf()
                    ==> instance.wf()),
                None => self@.instance is None,
            },
    {
        self.problem.as_ref()
    }

    /// The table, once there is one.
    pub fn table(&self) -> (r: Option<&Vec<Vec<usize>>>)
        ensures
            match r {
                Some(table) => self@.instance is Some && table.deep_view() == self@.table,
                None => self@.instance is None,
            },
    {
        if self.problem.is_some() {
            Some(&self.table)
        } else {
            None
        }
    }

    /// The number of data cells of the table; 0 while there is none.
    pub fn total_cells(&self) -> (total: usize)
        requires
            self.wf(),
        ensures
            total == self@.total_cells(),
    {
        match &self.problem {
            Some(problem) => {
                proof {
                    lemma_fits_bounds(problem@.capacity, problem@.weights, problem@.benefits);
                }
                problem.len() * (problem.capacity() + 1)
            },
            None => 0,
        }
    }

    /// Looks at the cell in row `row`, column `col` of the table.
    pub fn cell(&self, row: usize, col: usize) -> (cell: CellView)
        requires
            self.wf(),
            self@.instance matches Some(instance) && row <= instance.weights.len() && col
                <= instance.capacity,
        ensures
            cell == cell_view(
                self@.table,
                self@.instance->0.weights,
                self@.instance->0.benefits,
                self@.state,
                self@.instance->0.capacity as int,
                row as int,
                col as int,
            ),
    {
        match &self.problem {
            Some(problem) => {
                proof {
                    lemma_fits_bounds(problem@.capacity, problem@.weights, problem@.benefits);
                }
                classify(
                    &self.table,
                    problem.weights().as_slice(),
                    problem.benefits().as_slice(),
                    problem.capacity(),
                    self.state,
                    row,
                    col,
                )
            },
            None => vstd::pervasive::unreached(),
        }
    }

    /// Walks back through the table from its last cell and returns the
    /// cells on the way whose item was taken, first cell first.
    pub fn backtrack_path(&self) -> (path: Vec<(usize, usize)>)
        requires
            self.wf(),
            self@.instance is Some,
        ensures
            path@ == path_from(
                self@.table,
                self@.instance->0.weights,
                self@.instance->0.benefits,
                self@.instance->0.weights.len() as usize,
                self@.instance->0.capacity as usize,
            ),
    {
        match &self.problem {
            Some(problem) => backtrack_path(
                &self.table,
                problem.weights().as_slice(),
                problem.benefits().as_slice(),
                problem.capacity(),
            ),
            None => vstd::pervasive::unreached(),
        }
    }

    /// Reports how much of the table is shown.
    pub fn progress(&self) -> (p: Progress)
        requires
            self.wf(),
        ensures
            p.total == self@.total_cells(),
            p.done == self@.state.shown(p.total),
            p.done <= p.total,
            p.percent == percent_of(p.done as nat, p.total as nat),
            p.label@ == label_of(p.done as nat, p.total as nat),
    {
        let total = self.total_cells();
        progress(self.state, total)
    }
}

} // verus!
