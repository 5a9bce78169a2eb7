//! The triage engine: it works through the plan one mail-store request at a
//! time. Whoever holds the session performs the pending request and hands
//! the reply to `step`.

use vstd::prelude::*;
use crate::distinct::first_seen;
use crate::distinct::lemma_first_seen_push;
use crate::model::plan;
use crate::model::plan_over;
use crate::model::relocates;
use crate::model::seek_cursor;
use crate::model::seek_outcomes;
use crate::model::tasks_of;
use crate::model::ActionView;
use crate::model::EngineView;
use crate::model::EventView;
use crate::model::Phase;
use crate::model::TaskView;
use crate::outcome::Disposition;
use crate::outcome::Stage;
use crate::outcome::TriageOutcome;
use crate::rules::Rule;
use crate::rules::RulesSet;

verus! {

/// One rule to apply to one folder.
#[derive(Debug, PartialEq, Eq)]
pub struct Task {
    pub folder: String,
    pub rule: Rule,
}

impl View for Task {
    type V = TaskView;

    open spec fn view(&self) -> TaskView {
        TaskView { folder: self.folder@, rule: self.rule@ }
    }
}

impl DeepView for Task {
    type V = TaskView;

    open spec fn deep_view(&self) -> TaskView {
        self@
    }
}

/// A reply of the mail store to the request that was pending.
#[derive(Debug, PartialEq, Eq)]
pub enum Event {
    /// The folder is selected.
    Selected,
    /// The search matched these messages.
    Found(Vec<u32>),
    /// The matched messages were fetched.
    Fetched,
    /// The matched messages were moved.
    Moved,
    /// The request failed, for this reason.
    Failed(String),
}

impl View for Event {
    type V = EventView;

    open spec fn view(&self) -> EventView {
        match *self {
            Event::Selected => EventView::Selected,
            Event::Found(ids) => EventView::Found(ids@),
            Event::Fetched => EventView::Fetched,
            Event::Moved => EventView::Moved,
            Event::Failed(reason) => EventView::Failed(reason@),
        }
    }
}

/// A request to the mail store.
#[derive(Debug, PartialEq, Eq)]
pub enum Action {
    /// Select `folder`.
    Select { folder: String },
    /// Search the selected folder with `filter`.
    Search { filter: String },
    /// Fetch the envelopes of the messages `ids`, for display.
    Fetch { ids: Vec<u32> },
    /// Move the messages `ids` to the folder `target`.
    Move { ids: Vec<u32>, target: String },
    /// Nothing is left to do.
    Finish,
}

impl View for Action {
    type V = ActionView;

    open spec fn view(&self) -> ActionView {
        match *self {
            Action::Select { folder } => ActionView::Select { folder: folder@ },
            Action::Search { filter } => ActionView::Search { filter: filter@ },
            Action::Fetch { ids } => ActionView::Fetch { ids: ids@ },
            Action::Move { ids, target } => ActionView::Move { ids: ids@, target: target@ },
            Action::Finish => ActionView::Finish,
        }
    }
}

/// Whether matched messages are moved.
pub fn should_move(enable: bool, simulate: bool, force: bool) -> (moves: bool)
    ensures
        moves == relocates(enable, simulate, force),
{
    (enable && !simulate) || force
}

/// A copy of `ids`.
pub fn copy_ids(ids: &Vec<u32>) -> (copy: Vec<u32>)
    ensures
        copy@ == ids@,
{
    let mut copy: Vec<u32> = Vec::new();
    let mut i: usize = 0;
    while i < ids.len()
        invariant
            i <= ids.len(),
            copy@ == ids@.take(i as int),
        decreases ids.len() - i,
    {
        copy.push(ids[i]);
        assert(ids@.take(i + 1) =~= ids@.take(i as int).push(ids[i as int]));
        i += 1;
    }
    assert(ids@.take(i as int) =~= ids@);
    copy
}

/// The message numbers of `ids`, each once, in the order of first mention.
pub fn distinct_ids(ids: &Vec<u32>) -> (kept: Vec<u32>)
    ensures
        kept@ == first_seen(ids@),
{
    let mut kept: Vec<u32> = Vec::new();
    let mut i: usize = 0;
    assert(ids@.take(0) =~= Seq::empty());
    while i < ids.len()
        invariant
            i <= ids.len(),
            kept@ == first_seen(ids@.take(i as int)),
        decreases ids.len() - i,
    {
        let id = ids[i];
        let mut seen = false;
        let mut j: usize = 0;
        while j < kept.len()
            invariant
                j <= kept.len(),
                seen == kept@.take(j as int).contains(id),
            decreases kept.len() - j,
        {
            if kept[j] == id {
                seen = true;
            }
            proof {
                let upto = kept@.take(j + 1);
                let before = kept@.take(j as int);
                assert(upto =~= before.push(kept[j as int]));
                if before.contains(id) {
                    let k = choose|k: int| 0 <= k < before.len() && before[k] == id;
                    assert(upto[k] == id);
                }
                if kept[j as int] == id {
                    assert(upto[j as int] == id);
                }
                if upto.contains(id) && kept[j as int] != id {
                    let k = choose|k: int| 0 <= k < upto.len() && upto[k] == id;
                    assert(before[k] == id);
                }
            }
            j += 1;
        }
        proof {
            assert(kept@.take(j as int) =~= kept@);
            assert(ids@.take(i + 1) =~= ids@.take(i as int).push(id));
            lemma_first_seen_push(ids@.take(i as int), id);
        }
        if !seen {
            kept.push(id);
        }
        i += 1;
    }
    assert(ids@.take(i as int) =~= ids@);
    kept
}

/// Everything there is to do: the rules of the folder `only`, or of every
/// folder that the rule set names.
pub fn build_plan(rules: &RulesSet, only: &Option<String>) -> (tasks: Vec<Task>)
    ensures
        tasks.deep_view() == plan(rules@, only.deep_view()),
{
    let targets = match only {
        Some(folder) => {
            let mut one: Vec<String> = Vec::new();
            one.push(folder.clone());
            assert(one.deep_view() =~= seq![folder@]);
            one
        },
        None => rules.list_folders(),
    };
    let mut tasks: Vec<Task> = Vec::new();
    let mut i: usize = 0;
    assert(targets.deep_view().take(0) =~= Seq::empty());
    assert(tasks.deep_view() =~= Seq::empty());
    while i < targets.len()
        invariant
            i <= targets.len(),
            tasks.deep_view() == plan_over(rules@, targets.deep_view().take(i as int)),
        decreases targets.len() - i,
    {
        let found = rules.rules_for_folder(targets[i].clone());
        let ghost start = tasks.deep_view();
        let ghost batch = tasks_of(targets[i as int]@, found.deep_view());
        let mut j: usize = 0;
        assert(start + batch.take(0) =~= start);
        while j < found.len()
            invariant
                j <= found.len(),
                batch == tasks_of(targets[i as int]@, found.deep_view()),
                i < targets.len(),
                tasks.deep_view() == start + batch.take(j as int),
            decreases found.len() - j,
        {
            let ghost before = tasks.deep_view();
            tasks.push(Task { folder: targets[i].clone(), rule: found[j].clone() });
            proof {
                assert(tasks.deep_view() =~= before.push(batch[j as int]));
                assert(batch.take(j + 1) =~= batch.take(j as int).push(batch[j as int]));
                assert(start + batch.take(j + 1) =~= (start + batch.take(j as int)).push(
                    batch[j as int],
                ));
            }
            j += 1;
        }
        proof {
            assert(batch.take(j as int) =~= batch);
            let upto = targets.deep_view().take(i + 1);
            assert(upto.drop_last() =~= targets.deep_view().take(i as int));
            assert(upto.last() == targets[i as int]@);
        }
        i += 1;
    }
    assert(targets.deep_view().take(i as int) =~= targets.deep_view());
    tasks
}

/// The state of a run, not yet checked for consistency.
struct State {
    plan: Vec<Task>,
    tag: Option<String>,
    simulate: bool,
    force: bool,
    inspect: bool,
    cursor: usize,
    phase: Phase,
    ids: Vec<u32>,
    note: Option<String>,
    outcomes: Vec<TriageOutcome>,
}

impl View for State {
    type V = EngineView;

    closed spec fn view(&self) -> EngineView {
        EngineView {
            plan: self.plan.deep_view(),
            tag: self.tag.deep_view(),
            simulate: self.simulate,
            force: self.force,
            inspect: self.inspect,
            cursor: self.cursor as nat,
            phase: self.phase,
            ids: self.ids@,
            note: self.note.deep_view(),
            outcomes: self.outcomes.deep_view(),
        }
    }
}

impl State {
    fn seek(&mut self)
        requires
            old(self)@.cursor <= old(self)@.plan.len(),
        ensures
            final(self)@ == old(self)@.seek(),
    {
        let ghost start = self@;
        while self.cursor < self.plan.len()
            invariant
                self.cursor <= self.plan.len(),
                self@.plan == start.plan,
                self@.tag == start.tag,
                self@.simulate == start.simulate,
                self@.force == start.force,
                self@.inspect == start.inspect,
                seek_cursor(self@.plan, self@.tag, self@.cursor) == seek_cursor(
                    start.plan,
                    start.tag,
                    start.cursor,
                ),
                seek_outcomes(self@.plan, self@.tag, self@.cursor, self@.outcomes)
                    == seek_outcomes(start.plan, start.tag, start.cursor, start.outcomes),
            ensures
                self.cursor <= self.plan.len(),
                self@.plan == start.plan,
                self@.tag == start.tag,
                self@.simulate == start.simulate,
                self@.force == start.force,
                self@.inspect == start.inspect,
                self@.cursor == seek_cursor(start.plan, start.tag, start.cursor),
                self@.outcomes == seek_outcomes(
                    start.plan,
                    start.tag,
                    start.cursor,
                    start.outcomes,
                ),
            decreases self.plan.len() - self.cursor,
        {
            let task = &self.plan[self.cursor];
            if task.rule.match_tag(&self.tag) {
                break;
            }
            let ghost before = self.outcomes.deep_view();
            let outcome = TriageOutcome {
                folder: task.folder.clone(),
                rule: task.rule.clone(),
                matched: 0,
                disposition: Disposition::SkippedTagFilter,
                inspection_error: None,
            };
            self.outcomes.push(outcome);
            assert(self.outcomes.deep_view() =~= before.push(
                crate::model::passed_over(task@),
            ));
            self.cursor += 1;
        }
        self.phase = if self.cursor < self.plan.len() {
            Phase::Selecting
        } else {
            Phase::Finished
        };
        self.ids = Vec::new();
        self.note = None;
    }

    fn settle(&mut self, matched: usize, disposition: Disposition)
        requires
            old(self)@.cursor < old(self)@.plan.len(),
        ensures
            final(self)@ == old(self)@.settle(matched as nat, disposition@),
    {
        assert(self.cursor < self.plan.len());
        let task = &self.plan[self.cursor];
        let ghost before = self.outcomes.deep_view();
        let ghost entry = self@.outcome(matched as nat, disposition@);
        let outcome = TriageOutcome {
            folder: task.folder.clone(),
            rule: task.rule.clone(),
            matched,
            disposition,
            inspection_error: self.note.take(),
        };
        assert(outcome@ == entry);
        self.outcomes.push(outcome);
        assert(self.outcomes.deep_view() =~= before.push(entry));
        self.cursor += 1;
        self.seek();
    }

    fn decide(&mut self)
        requires
            old(self)@.cursor < old(self)@.plan.len(),
        ensures
            final(self)@ == old(self)@.decide(),
    {
        let enable = self.plan[self.cursor].rule.enable;
        if should_move(enable, self.simulate, self.force) {
            self.phase = Phase::Moving;
        } else {
            let matched = self.ids.len();
            self.settle(matched, Disposition::SkippedDisabled);
        }
    }

    fn step(&mut self, event: Event)
        requires
            old(self)@.wf(),
        ensures
            final(self)@ == old(self)@.next(event@),
    {
        match self.phase {
            Phase::Selecting => match event {
                Event::Selected => {
                    self.phase = Phase::Searching;
                },
                Event::Failed(reason) => {
                    self.settle(0, Disposition::Failed { stage: Stage::Select, reason });
                },
                _ => {},
            },
            Phase::Searching => match event {
                Event::Found(ids) => {
                    if ids.len() == 0 {
                        self.settle(0, Disposition::SkippedNoMatch);
                    } else if self.inspect {
                        self.ids = distinct_ids(&ids);
                        self.phase = Phase::Inspecting;
                    } else {
                        self.ids = distinct_ids(&ids);
                        self.decide();
                    }
                },
                Event::Failed(reason) => {
                    self.settle(0, Disposition::Failed { stage: Stage::Search, reason });
                },
                _ => {},
            },
            Phase::Inspecting => match event {
                Event::Fetched => {
                    self.decide();
                },
                Event::Failed(reason) => {
                    self.note = Some(reason);
                    self.decide();
                },
                _ => {},
            },
            Phase::Moving => match event {
                Event::Moved => {
                    let matched = self.ids.len();
                    self.settle(matched, Disposition::Moved);
                },
                Event::Failed(reason) => {
                    let matched = self.ids.len();
                    self.settle(matched, Disposition::Failed { stage: Stage::Move, reason });
                },
                _ => {},
            },
            Phase::Finished => {},
        }
    }
}

/// A run of the rules over a mail store.
///
/// The engine never touches the mail store. It says which request is
/// pending; the holder of the session performs it and hands the reply to
/// [`Engine::step`], until the pending request is [`Action::Finish`].
pub struct Engine {
    state: State,
}

impl View for Engine {
    type V = EngineView;

    closed spec fn view(&self) -> EngineView {
        self.state@
    }
}

impl Engine {
    #[verifier::type_invariant]
    spec fn consistent(self) -> bool {
        self.state@.wf()
    }

    /// A run of `rules` over the folder `only`, or over every folder that
    /// the rules name, restricted to the rules that carry `tag` if one is
    /// given. With `simulate` nothing is moved; with `force` disabled rules
    /// move too, whatever `simulate` says; with `inspect` what a rule
    /// matched is fetched before the rule decides.
    pub fn new(
        rules: &RulesSet,
        only: Option<String>,
        tag: Option<String>,
        simulate: bool,
        force: bool,
        inspect: bool,
    ) -> (engine: Engine)
        ensures
            engine@ == EngineView::start(
                rules@,
                only.deep_view(),
                tag.deep_view(),
                simulate,
                force,
                inspect,
            ),
            engine@.wf(),
    {
        let mut state = State {
            plan: build_plan(rules, &only),
            tag,
            simulate,
            force,
            inspect,
            cursor: 0,
            phase: Phase::Finished,
            ids: Vec::new(),
            note: None,
            outcomes: Vec::new(),
        };
        proof {
            assert(state@.outcomes =~= Seq::empty());
            state@.lemma_seek_wf();
        }
        state.seek();
        Engine { state }
    }

    /// The request that the mail store is to perform now.
    pub fn pending(&self) -> (action: Action)
        ensures
            action@ == self@.pending(),
            self@.wf(),
    {
        proof {
            use_type_invariant(self);
        }
        match self.state.phase {
            Phase::Selecting => Action::Select {
                folder: self.state.plan[self.state.cursor].folder.clone(),
            },
            Phase::Searching => Action::Search {
                filter: self.state.plan[self.state.cursor].rule.filter.clone(),
            },
            Phase::Inspecting => Action::Fetch { ids: copy_ids(&self.state.ids) },
            Phase::Moving => Action::Move {
                ids: copy_ids(&self.state.ids),
                target: self.state.plan[self.state.cursor].rule.target.clone(),
            },
            Phase::Finished => Action::Finish,
        }
    }

    /// Takes the reply of the mail store to the pending request. A reply
    /// that answers no pending request changes nothing.
    pub fn step(self, event: Event) -> (next: Engine)
        ensures
            next@ == self@.next(event@),
            self@.wf(),
            next@.wf(),
    {
        proof {
            use_type_invariant(&self);
            self@.lemma_next_wf(event@);
        }
        let mut state = self.state;
        state.step(event);
        Engine { state }
    }

    /// Whether `event` answers the pending request.
    pub fn expects(&self, event: &Event) -> (expected: bool)
        ensures
            expected == self@.expects(event@),
    {
        match self.state.phase {
            Phase::Selecting => match event {
                Event::Selected => true,
                Event::Failed(_) => true,
                _ => false,
            },
            Phase::Searching => match event {
                Event::Found(_) => true,
                Event::Failed(_) => true,
                _ => false,
            },
            Phase::Inspecting => match event {
                Event::Fetched => true,
                Event::Failed(_) => true,
                _ => false,
            },
            Phase::Moving => match event {
                Event::Moved => true,
                Event::Failed(_) => true,
                _ => false,
            },
            Phase::Finished => false,
        }
    }

    /// Whether every task has its outcome.
    pub fn is_finished(&self) -> (finished: bool)
        ensures
            finished == (self@.phase is Finished),
    {
        match self.state.phase {
            Phase::Finished => true,
            _ => false,
        }
    }

    /// The task at hand and the requests it still needs, if any is left.
    pub fn current(&self) -> (task: Option<&Task>)
        ensures
            self@.wf(),
            task is Some <==> !(self@.phase is Finished),
            task matches Some(t) ==> t@ == self@.task(),
    {
        proof {
            use_type_invariant(self);
        }
        match self.state.phase {
            Phase::Finished => None,
            _ => Some(&self.state.plan[self.state.cursor]),
        }
    }

    /// The outcomes so far: one for each task that is done, in the order of
    /// the plan.
    pub fn outcomes(&self) -> (outcomes: &Vec<TriageOutcome>)
        ensures
            outcomes.deep_view() == self@.outcomes,
    {
        &self.state.outcomes
    }

    /// Ends the run and hands out its outcomes.
    pub fn into_outcomes(self) -> (outcomes: Vec<TriageOutcome>)
        ensures
            outcomes.deep_view() == self@.outcomes,
    {
        self.state.outcomes
    }
}

} // verus!
