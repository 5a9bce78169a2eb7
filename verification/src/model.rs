//! The triage engine as a state machine over mathematical values: the plan
//! it works through, the state it keeps, and how each reply of the mail
//! store changes that state.

use vstd::prelude::*;
use crate::distinct::first_seen;
use crate::distinct::lemma_first_seen_contains;
use crate::distinct::lemma_first_seen_no_duplicates;
use crate::outcome::DispositionView;
use crate::outcome::Stage;
use crate::outcome::TriageOutcomeView;
use crate::rules::RuleView;
use crate::rules::RulesSetView;

verus! {

/// One rule to apply to one folder.
pub struct TaskView {
    pub folder: Seq<char>,
    pub rule: RuleView,
}

/// The rules `rules`, each bound to `folder`.
pub open spec fn tasks_of(folder: Seq<char>, rules: Seq<RuleView>) -> Seq<TaskView> {
    Seq::new(rules.len(), |i: int| TaskView { folder, rule: rules[i] })
}

/// The tasks of the folders `targets`: folder after folder, and within a
/// folder the rules that apply to it in execution order.
pub open spec fn plan_over(set: RulesSetView, targets: Seq<Seq<char>>) -> Seq<TaskView>
    decreases targets.len(),
{
    if targets.len() == 0 {
        Seq::empty()
    } else {
        plan_over(set, targets.drop_last()) + tasks_of(
            targets.last(),
            set.rules_for(targets.last()),
        )
    }
}

/// The folders to work on: the one asked for, or all that the rule set names.
pub open spec fn targets(set: RulesSetView, only: Option<Seq<char>>) -> Seq<Seq<char>> {
    match only {
        Some(folder) => seq![folder],
        None => set.folder_names(),
    }
}

/// Everything there is to do, in the order in which it is done.
pub open spec fn plan(set: RulesSetView, only: Option<Seq<char>>) -> Seq<TaskView> {
    plan_over(set, targets(set, only))
}

/// Whether matched messages are moved: an enabled rule moves them unless the
/// run only simulates, and a forced run moves them in any case.
pub open spec fn relocates(enable: bool, simulate: bool, force: bool) -> bool {
    (enable && !simulate) || force
}

/// What the engine is waiting for.
#[derive(Debug, Clone, Copy, PartialEq, Eq)]
pub enum Phase {
    /// For the folder of the current task to be selected.
    Selecting,
    /// For the result of the search.
    Searching,
    /// For the matched messages to be fetched for display.
    Inspecting,
    /// For the matched messages to be moved.
    Moving,
    /// For nothing: every task has its outcome.
    Finished,
}

/// A reply of the mail store.
pub enum EventView {
    Selected,
    Found(Seq<u32>),
    Fetched,
    Moved,
    Failed(Seq<char>),
}

/// A request to the mail store.
pub enum ActionView {
    Select { folder: Seq<char> },
    Search { filter: Seq<char> },
    Fetch { ids: Seq<u32> },
    Move { ids: Seq<u32>, target: Seq<char> },
    Finish,
}

/// The outcome of a task that the tag filter leaves out.
pub open spec fn passed_over(task: TaskView) -> TriageOutcomeView {
    TriageOutcomeView {
        folder: task.folder,
        rule: task.rule,
        matched: 0,
        disposition: DispositionView::SkippedTagFilter,
        inspection_error: None,
    }
}

/// The first task from `cursor` on that passes the tag filter, or the end of
/// the plan if there is none.
pub open spec fn seek_cursor(plan: Seq<TaskView>, tag: Option<Seq<char>>, cursor: nat) -> nat
    decreases plan.len() - cursor,
{
    if cursor >= plan.len() {
        plan.len()
    } else if plan[cursor as int].rule.matches(tag) {
        cursor
    } else {
        seek_cursor(plan, tag, cursor + 1)
    }
}

/// `outcomes`, and after them the outcome of every task from `cursor` up to
/// `seek_cursor`: each was passed over.
pub open spec fn seek_outcomes(
    plan: Seq<TaskView>,
    tag: Option<Seq<char>>,
    cursor: nat,
    outcomes: Seq<TriageOutcomeView>,
) -> Seq<TriageOutcomeView>
    decreases plan.len() - cursor,
{
    if cursor >= plan.len() || plan[cursor as int].rule.matches(tag) {
        outcomes
    } else {
        seek_outcomes(plan, tag, cursor + 1, outcomes.push(passed_over(plan[cursor as int])))
    }
}

/// The state of a run.
pub struct EngineView {
    /// Everything there is to do.
    pub plan: Seq<TaskView>,
    /// The tag filter.
    pub tag: Option<Seq<char>>,
    /// Never move.
    pub simulate: bool,
    /// Move even where the rule is disabled.
    pub force: bool,
    /// Fetch what matched before deciding.
    pub inspect: bool,
    /// The task at hand.
    pub cursor: nat,
    /// What the engine is waiting for.
    pub phase: Phase,
    /// What the search of the task at hand matched.
    pub ids: Seq<u32>,
    /// Why what matched could not be inspected.
    pub note: Option<Seq<char>>,
    /// The outcomes so far, one for each task before the cursor.
    pub outcomes: Seq<TriageOutcomeView>,
}

impl EngineView {
    /// The state before the first request.
    pub open spec fn start(
        set: RulesSetView,
        only: Option<Seq<char>>,
        tag: Option<Seq<char>>,
        simulate: bool,
        force: bool,
        inspect: bool,
    ) -> EngineView {
        EngineView {
            plan: plan(set, only),
            tag,
            simulate,
            force,
            inspect,
            cursor: 0,
            phase: Phase::Finished,
            ids: Seq::empty(),
            note: None,
            outcomes: Seq::empty(),
        }.seek()
    }

    /// The task at hand.
    pub open spec fn task(self) -> TaskView {
        self.plan[self.cursor as int]
    }

    /// The outcome of the task at hand, if it ends with `disposition`.
    pub open spec fn outcome(self, matched: nat, disposition: DispositionView) -> TriageOutcomeView {
        TriageOutcomeView {
            folder: self.task().folder,
            rule: self.task().rule,
            matched,
            disposition,
            inspection_error: self.note,
        }
    }

    /// Goes on to the first task from the cursor on that passes the tag
    /// filter, and records those before it as passed over.
    pub open spec fn seek(self) -> EngineView {
        let cursor = seek_cursor(self.plan, self.tag, self.cursor);
        EngineView {
            cursor,
            phase: if cursor < self.plan.len() {
                Phase::Selecting
            } else {
                Phase::Finished
            },
            ids: Seq::empty(),
            note: None,
            outcomes: seek_outcomes(self.plan, self.tag, self.cursor, self.outcomes),
            ..self
        }
    }

    /// Ends the task at hand with `disposition` and goes on to the next.
    pub open spec fn settle(self, matched: nat, disposition: DispositionView) -> EngineView {
        EngineView {
            cursor: self.cursor + 1,
            outcomes: self.outcomes.push(self.outcome(matched, disposition)),
            ..self
        }.seek()
    }

    /// Whether the task at hand moves what it matched.
    pub open spec fn moves(self) -> bool {
        relocates(self.task().rule.enable, self.simulate, self.force)
    }

    /// With the matches known and shown: move them, or leave them and end
    /// the task.
    pub open spec fn decide(self) -> EngineView {
        if self.moves() {
            EngineView { phase: Phase::Moving, ..self }
        } else {
            self.settle(self.ids.len(), DispositionView::SkippedDisabled)
        }
    }

    /// Whether `event` answers the request that is pending.
    pub open spec fn expects(self, event: EventView) -> bool {
        match self.phase {
            Phase::Selecting => event is Selected || event is Failed,
            Phase::Searching => event is Found || event is Failed,
            Phase::Inspecting => event is Fetched || event is Failed,
            Phase::Moving => event is Moved || event is Failed,
            Phase::Finished => false,
        }
    }

    /// The state after the mail store replied `event`. A reply that answers
    /// no pending request changes nothing.
    pub open spec fn next(self, event: EventView) -> EngineView {
        match self.phase {
            Phase::Selecting => match event {
                EventView::Selected => EngineView { phase: Phase::Searching, ..self },
                EventView::Failed(reason) => self.settle(
                    0,
                    DispositionView::Failed { stage: Stage::Select, reason },
                ),
                _ => self,
            },
            Phase::Searching => match event {
                EventView::Found(ids) => if ids.len() == 0 {
                    self.settle(0, DispositionView::SkippedNoMatch)
                } else if self.inspect {
                    EngineView { phase: Phase::Inspecting, ids: first_seen(ids), ..self }
                } else {
                    EngineView { ids: first_seen(ids), ..self }.decide()
                },
                EventView::Failed(reason) => self.settle(
                    0,
                    DispositionView::Failed { stage: Stage::Search, reason },
                ),
                _ => self,
            },
            Phase::Inspecting => match event {
                EventView::Fetched => self.decide(),
                EventView::Failed(reason) => EngineView { note: Some(reason), ..self }.decide(),
                _ => self,
            },
            Phase::Moving => match event {
                EventView::Moved => self.settle(self.ids.len(), DispositionView::Moved),
                EventView::Failed(reason) => self.settle(
                    self.ids.len(),
                    DispositionView::Failed { stage: Stage::Move, reason },
                ),
                _ => self,
            },
            Phase::Finished => self,
        }
    }

    /// The request that is pending.
    pub open spec fn pending(self) -> ActionView {
        match self.phase {
            Phase::Selecting => ActionView::Select { folder: self.task().folder },
            Phase::Searching => ActionView::Search { filter: self.task().rule.filter },
            Phase::Inspecting => ActionView::Fetch { ids: self.ids },
            Phase::Moving => ActionView::Move { ids: self.ids, target: self.task().rule.target },
            Phase::Finished => ActionView::Finish,
        }
    }

    /// Each task before the cursor has its outcome, and no other has one.
    pub open spec fn recorded(self) -> bool {
        &&& self.cursor <= self.plan.len()
        &&& self.outcomes.len() == self.cursor
        &&& forall|i: int|
            0 <= i < self.cursor ==> (#[trigger] self.outcomes[i]).folder == self.plan[i].folder
                && self.outcomes[i].rule == self.plan[i].rule
    }

    /// What holds of every state of a run: each task before the cursor has
    /// its outcome, the task at hand passes the tag filter, and matches are
    /// held exactly while they are inspected or moved.
    pub open spec fn wf(self) -> bool {
        &&& self.recorded()
        &&& (self.phase is Finished <==> self.cursor == self.plan.len())
        &&& (!(self.phase is Finished) ==> self.task().rule.matches(self.tag))
        &&& (self.phase is Inspecting || self.phase is Moving ==> self.ids.len() > 0
            && self.ids.no_duplicates())
        &&& (self.phase is Selecting || self.phase is Searching || self.phase is Finished
            ==> self.ids.len() == 0)
        &&& (self.note is Some ==> self.phase is Moving)
        &&& (self.phase is Moving ==> self.moves())
    }
}

/// What `seek_cursor` and `seek_outcomes` come to: the cursor stops at the
/// first task that passes the filter, the outcomes before stay as they are,
/// and every task in between is recorded as passed over.
pub proof fn lemma_seek(
    plan: Seq<TaskView>,
    tag: Option<Seq<char>>,
    cursor: nat,
    outcomes: Seq<TriageOutcomeView>,
)
    requires
        cursor <= plan.len(),
        outcomes.len() == cursor,
    ensures
        cursor <= seek_cursor(plan, tag, cursor) <= plan.len(),
        seek_cursor(plan, tag, cursor) < plan.len() ==> plan[seek_cursor(
            plan,
            tag,
            cursor,
        ) as int].rule.matches(tag),
        seek_outcomes(plan, tag, cursor, outcomes).len() == seek_cursor(plan, tag, cursor),
        forall|i: int|
            0 <= i < cursor ==> #[trigger] seek_outcomes(plan, tag, cursor, outcomes)[i]
                == outcomes[i],
        forall|i: int|
            cursor <= i < seek_cursor(plan, tag, cursor) ==> !plan[i].rule.matches(tag)
                && #[trigger] seek_outcomes(plan, tag, cursor, outcomes)[i] == passed_over(
                plan[i],
            ),
    decreases plan.len() - cursor,
{
    if cursor < plan.len() && !plan[cursor as int].rule.matches(tag) {
        let grown = outcomes.push(passed_over(plan[cursor as int]));
        lemma_seek(plan, tag, cursor + 1, grown);
        assert forall|i: int| 0 <= i < cursor implies #[trigger] seek_outcomes(
            plan,
            tag,
            cursor,
            outcomes,
        )[i] == outcomes[i] by {
            assert(grown[i] == outcomes[i]);
        }
        assert(grown[cursor as int] == passed_over(plan[cursor as int]));
    }
}

impl EngineView {
    /// `seek` leaves a state of a run, moves the cursor only forward, and
    /// keeps the outcomes there were.
    pub proof fn lemma_seek_wf(self)
        requires
            self.recorded(),
        ensures
            self.seek().wf(),
            self.seek().plan == self.plan,
            self.seek().cursor >= self.cursor,
            forall|i: int|
                0 <= i < self.cursor ==> #[trigger] self.seek().outcomes[i] == self.outcomes[i],
    {
        lemma_seek(self.plan, self.tag, self.cursor, self.outcomes);
        let after = self.seek();
        assert forall|i: int| 0 <= i < after.cursor implies (#[trigger] after.outcomes[i]).folder
            == after.plan[i].folder && after.outcomes[i].rule == after.plan[i].rule by {
            if i < self.cursor {
                assert(after.outcomes[i] == self.outcomes[i]);
            }
        }
    }

    /// `settle` leaves a state of a run in which the task that was at hand
    /// has the outcome given, and the outcomes before it are as they were.
    pub proof fn lemma_settle(self, matched: nat, disposition: DispositionView)
        requires
            self.recorded(),
            self.cursor < self.plan.len(),
        ensures
            self.settle(matched, disposition).wf(),
            self.settle(matched, disposition).plan == self.plan,
            self.settle(matched, disposition).cursor > self.cursor,
            self.settle(matched, disposition).phase is Selecting || self.settle(
                matched,
                disposition,
            ).phase is Finished,
            self.settle(matched, disposition).outcomes[self.cursor as int] == self.outcome(
                matched,
                disposition,
            ),
            forall|i: int|
                0 <= i < self.cursor ==> #[trigger] self.settle(matched, disposition).outcomes[i]
                    == self.outcomes[i],
    {
        let grown = EngineView {
            cursor: self.cursor + 1,
            outcomes: self.outcomes.push(self.outcome(matched, disposition)),
            ..self
        };
        assert forall|i: int| 0 <= i < grown.cursor implies (#[trigger] grown.outcomes[i]).folder
            == grown.plan[i].folder && grown.outcomes[i].rule == grown.plan[i].rule by {
            if i < self.cursor {
                assert(grown.outcomes[i] == self.outcomes[i]);
            }
        }
        grown.lemma_seek_wf();
        assert(grown.seek().outcomes[self.cursor as int] == grown.outcomes[self.cursor as int]);
        assert forall|i: int| 0 <= i < self.cursor implies #[trigger] self.settle(
            matched,
            disposition,
        ).outcomes[i] == self.outcomes[i] by {
            assert(grown.seek().outcomes[i] == grown.outcomes[i]);
        }
    }

    /// Every reply leaves a state of a run, with the same plan.
    pub proof fn lemma_next_wf(self, event: EventView)
        requires
            self.wf(),
        ensures
            self.next(event).wf(),
            self.next(event).plan == self.plan,
    {
        match self.phase {
            Phase::Selecting => match event {
                EventView::Failed(reason) => {
                    self.lemma_settle(0, DispositionView::Failed { stage: Stage::Select, reason });
                },
                _ => {},
            },
            Phase::Searching => match event {
                EventView::Found(ids) => {
                    lemma_first_seen_no_duplicates(ids);
                    if ids.len() == 0 {
                        self.lemma_settle(0, DispositionView::SkippedNoMatch);
                    } else {
                        lemma_first_seen_contains(ids, ids[0]);
                        assert(first_seen(ids).len() > 0);
                        let found = EngineView { ids: first_seen(ids), ..self };
                        found.lemma_settle(found.ids.len(), DispositionView::SkippedDisabled);
                    }
                },
                EventView::Failed(reason) => {
                    self.lemma_settle(0, DispositionView::Failed { stage: Stage::Search, reason });
                },
                _ => {},
            },
            Phase::Inspecting => match event {
                EventView::Fetched => {
                    self.lemma_settle(self.ids.len(), DispositionView::SkippedDisabled);
                },
                EventView::Failed(reason) => {
                    let noted = EngineView { note: Some(reason), ..self };
                    noted.lemma_settle(noted.ids.len(), DispositionView::SkippedDisabled);
                },
                _ => {},
            },
            Phase::Moving => match event {
                EventView::Moved => {
                    self.lemma_settle(self.ids.len(), DispositionView::Moved);
                },
                EventView::Failed(reason) => {
                    self.lemma_settle(
                        self.ids.len(),
                        DispositionView::Failed { stage: Stage::Move, reason },
                    );
                },
                _ => {},
            },
            Phase::Finished => {},
        }
    }
}

} // verus!
