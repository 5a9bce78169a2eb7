//! What holds of the library as a whole, for every rule set and every run.

use vstd::prelude::*;
use crate::distinct::first_position;
use crate::distinct::first_seen;
use crate::distinct::lemma_first_seen_contains;
use crate::distinct::lemma_first_seen_no_duplicates;
use crate::distinct::lemma_first_seen_of_distinct;
use crate::distinct::lemma_first_seen_order;
use crate::model::ActionView;
use crate::order::ascending;
use crate::order::lemma_text_order_total;
use crate::order::text_before;
use crate::model::EngineView;
use crate::model::EventView;
use crate::model::Phase;
use crate::outcome::DispositionView;
use crate::outcome::Stage;
use crate::outcome::TriageOutcomeView;
use crate::rules::all_names;
use crate::rules::rules_serving;
use crate::rules::FolderRuleView;
use crate::rules::RuleView;
use crate::rules::RulesSetView;

verus! {

/// The names that a list of entries mentions are those that one of the
/// entries serves.
pub proof fn law_names_are_served(folders: Seq<FolderRuleView>, name: Seq<char>)
    ensures
        all_names(folders).contains(name) <==> exists|k: int|
            0 <= k < folders.len() && #[trigger] folders[k].serves(name),
    decreases folders.len(),
{
    if folders.len() > 0 {
        let front = folders.drop_last();
        let last = folders.last();
        law_names_are_served(front, name);
        let names = all_names(folders);
        if all_names(front).contains(name) {
            let i = choose|i: int| 0 <= i < all_names(front).len() && all_names(front)[i] == name;
            assert(names[i] == name);
            let k = choose|k: int| 0 <= k < front.len() && #[trigger] front[k].serves(name);
            assert(folders[k].serves(name));
        }
        if last.serves(name) {
            assert(folders[folders.len() - 1].serves(name));
            if last.folder == name {
                assert(names[all_names(front).len() as int] == name);
            } else {
                let i = choose|i: int| 0 <= i < last.aliases().len() && last.aliases()[i] == name;
                assert(names[all_names(front).len() + 1 + i] == name);
            }
        }
        if names.contains(name) {
            let i = choose|i: int| 0 <= i < names.len() && names[i] == name;
            if i < all_names(front).len() {
                assert(all_names(front)[i] == name);
            } else if i == all_names(front).len() {
                assert(last.folder == name);
            } else {
                assert(last.aliases()[i - all_names(front).len() - 1] == name);
            }
        }
        if exists|k: int| 0 <= k < folders.len() && #[trigger] folders[k].serves(name) {
            let k = choose|k: int| 0 <= k < folders.len() && #[trigger] folders[k].serves(name);
            if k < front.len() {
                assert(front[k].serves(name));
            }
        }
    }
}

/// The folders to visit are the names that the rule set mentions, primary
/// names and aliases alike: none is missing, none comes twice, and they come
/// in the order of their first mention.
pub proof fn law_folders_once_in_first_seen_order(set: RulesSetView)
    ensures
        set.folder_names().no_duplicates(),
        forall|name: Seq<char>| #[trigger]
            set.folder_names().contains(name) <==> all_names(set.folders).contains(name),
        forall|i: int, j: int|
            0 <= i < j < set.folder_names().len() ==> first_position(
                all_names(set.folders),
                #[trigger] set.folder_names()[i],
            ) < first_position(all_names(set.folders), #[trigger] set.folder_names()[j]),
{
    let names = all_names(set.folders);
    lemma_first_seen_no_duplicates(names);
    assert forall|name: Seq<char>| #[trigger]
        set.folder_names().contains(name) <==> names.contains(name) by {
        lemma_first_seen_contains(names, name);
    }
    assert forall|i: int, j: int| 0 <= i < j < set.folder_names().len() implies first_position(
        names,
        #[trigger] set.folder_names()[i],
    ) < first_position(names, #[trigger] set.folder_names()[j]) by {
        lemma_first_seen_order(names, i, j);
    }
}

/// With no tag requested every rule passes the filter. With a tag requested
/// a rule without tags does not pass, and any other passes if and only if
/// the tag is one of its own.
pub proof fn law_tag_filter(rule: RuleView, tag: Seq<char>)
    ensures
        rule.matches(None),
        rule.tags is None ==> !rule.matches(Some(tag)),
        rule.tags matches Some(tags) ==> tags.len() == 0 ==> !rule.matches(Some(tag)),
        rule.tags matches Some(tags) ==> rule.matches(Some(tag)) == tags.contains(tag),
{
}

/// The rules for a folder are those of one entry after those of the other,
/// in document order: an entry that serves the folder gives all its rules,
/// in their order, and another gives none. Nothing is left out because it
/// came before.
pub proof fn law_rules_in_document_order(
    before: Seq<FolderRuleView>,
    after: Seq<FolderRuleView>,
    entry: FolderRuleView,
    name: Seq<char>,
)
    ensures
        rules_serving(Seq::empty(), name) == Seq::<RuleView>::empty(),
        rules_serving(seq![entry], name) == if entry.serves(name) {
            entry.rules
        } else {
            Seq::empty()
        },
        rules_serving(before + after, name) == rules_serving(before, name) + rules_serving(
            after,
            name,
        ),
    decreases after.len(),
{
    assert(seq![entry].drop_last() =~= Seq::empty());
    assert(seq![entry].last() == entry);
    assert(rules_serving(seq![entry].drop_last(), name) =~= Seq::empty());
    assert(rules_serving(seq![entry], name) =~= if entry.serves(name) {
        entry.rules
    } else {
        Seq::empty()
    });
    if after.len() == 0 {
        assert(before + after =~= before);
        assert(rules_serving(before, name) + rules_serving(after, name) =~= rules_serving(
            before,
            name,
        ));
    } else {
        law_rules_in_document_order(before, after.drop_last(), entry, name);
        assert((before + after).drop_last() =~= before + after.drop_last());
        assert((before + after).last() == after.last());
        assert(rules_serving(before + after, name) =~= rules_serving(before, name)
            + rules_serving(after, name));
    }
}

/// The outcome of the task at hand of `state`, with `matched` messages and
/// no failed inspection unless `note` holds one.
pub open spec fn outcome_of(
    state: EngineView,
    matched: nat,
    disposition: DispositionView,
    note: Option<Seq<char>>,
) -> TriageOutcomeView {
    TriageOutcomeView {
        folder: state.task().folder,
        rule: state.task().rule,
        matched,
        disposition,
        inspection_error: note,
    }
}

/// Whether `after` is `before` with the task that was at hand done: it has
/// the outcome `outcome`, the outcomes before it are as they were, and the
/// pending request is for a later task or there is none.
pub open spec fn task_done(before: EngineView, after: EngineView, outcome: TriageOutcomeView) -> bool {
    &&& after.wf()
    &&& after.plan == before.plan
    &&& after.cursor > before.cursor
    &&& after.outcomes[before.cursor as int] == outcome
    &&& forall|i: int| 0 <= i < before.cursor ==> #[trigger] after.outcomes[i] == before.outcomes[i]
    &&& (after.pending() is Select || after.pending() is Finish)
}

/// What the reply to a fetch leaves as the reason of a failed inspection.
pub open spec fn noted(reply: EventView) -> Option<Seq<char>> {
    match reply {
        EventView::Failed(reason) => Some(reason),
        _ => None,
    }
}

/// A search that matches nothing ends the task as skipped for want of a
/// match, with a count of 0: neither a fetch nor a move is asked for.
pub proof fn law_no_match_no_request(state: EngineView)
    requires
        state.wf(),
        state.phase is Searching,
    ensures
        task_done(
            state,
            state.next(EventView::Found(Seq::empty())),
            outcome_of(state, 0, DispositionView::SkippedNoMatch, None),
        ),
{
    state.lemma_settle(0, DispositionView::SkippedNoMatch);
}

/// Where messages matched and the rule does not move them (it is disabled
/// or the run simulates, and the run is not forced), no move is asked for:
/// the messages are fetched if the run inspects, and whatever the reply to
/// that, the task ends as skipped with the number of distinct matches.
pub proof fn law_disabled_rule_moves_nothing(state: EngineView, ids: Seq<u32>, reply: EventView)
    requires
        state.wf(),
        state.phase is Searching,
        ids.len() > 0,
        !state.moves(),
        reply is Fetched || reply is Failed,
    ensures
        !state.inspect ==> task_done(
            state,
            state.next(EventView::Found(ids)),
            outcome_of(state, first_seen(ids).len(), DispositionView::SkippedDisabled, None),
        ),
        state.inspect ==> state.next(EventView::Found(ids)).cursor == state.cursor
            && state.next(EventView::Found(ids)).pending() == (ActionView::Fetch {
            ids: first_seen(ids),
        }) && task_done(
            state,
            state.next(EventView::Found(ids)).next(reply),
            outcome_of(
                state,
                first_seen(ids).len(),
                DispositionView::SkippedDisabled,
                noted(reply),
            ),
        ),
{
    let found = EngineView { ids: first_seen(ids), ..state };
    lemma_first_seen_no_duplicates(ids);
    lemma_first_seen_contains(ids, ids[0]);
    assert(first_seen(ids).len() > 0);
    if state.inspect {
        let held = state.next(EventView::Found(ids));
        let told = EngineView { note: noted(reply), ..held };
        told.lemma_settle(first_seen(ids).len(), DispositionView::SkippedDisabled);
    } else {
        found.lemma_settle(first_seen(ids).len(), DispositionView::SkippedDisabled);
    }
}

/// Where messages matched and the rule moves them (it is enabled and the
/// run does not simulate, or the run is forced), one move is asked for, of
/// every distinct match to the target of the rule, after the fetch if the
/// run inspects and whatever the reply to that. The reply to the move ends
/// the task: as moved, or as failed at the move, each with the number of
/// distinct matches.
pub proof fn law_enabled_rule_moves_once(
    state: EngineView,
    ids: Seq<u32>,
    reply: EventView,
    reason: Seq<char>,
)
    requires
        state.wf(),
        state.phase is Searching,
        ids.len() > 0,
        state.moves(),
        reply is Fetched || reply is Failed,
    ensures
        ({
            let found = state.next(EventView::Found(ids));
            let ready = if state.inspect {
                found.next(reply)
            } else {
                found
            };
            let note = if state.inspect {
                noted(reply)
            } else {
                None
            };
            &&& state.inspect ==> found.cursor == state.cursor && found.pending()
                == (ActionView::Fetch { ids: first_seen(ids) })
            &&& ready.wf()
            &&& ready.cursor == state.cursor
            &&& ready.pending() == (ActionView::Move {
                ids: first_seen(ids),
                target: state.task().rule.target,
            })
            &&& task_done(
                state,
                ready.next(EventView::Moved),
                outcome_of(state, first_seen(ids).len(), DispositionView::Moved, note),
            )
            &&& task_done(
                state,
                ready.next(EventView::Failed(reason)),
                outcome_of(
                    state,
                    first_seen(ids).len(),
                    DispositionView::Failed { stage: Stage::Move, reason },
                    note,
                ),
            )
        }),
{
    lemma_first_seen_no_duplicates(ids);
    lemma_first_seen_contains(ids, ids[0]);
    assert(first_seen(ids).len() > 0);
    let found = state.next(EventView::Found(ids));
    state.lemma_next_wf(EventView::Found(ids));
    let ready = if state.inspect {
        found.next(reply)
    } else {
        found
    };
    if state.inspect {
        found.lemma_next_wf(reply);
    }
    ready.lemma_settle(first_seen(ids).len(), DispositionView::Moved);
    ready.lemma_settle(
        first_seen(ids).len(),
        DispositionView::Failed { stage: Stage::Move, reason },
    );
}

/// Matches that the search reports once each are moved as they are.
pub proof fn law_distinct_matches_are_kept(ids: Seq<u32>)
    requires
        ids.no_duplicates(),
    ensures
        first_seen(ids) == ids,
{
    lemma_first_seen_of_distinct(ids);
}

/// A failed selection or search ends the task as failed at that stage and
/// the run goes on: the pending request is for a later task, or there is
/// none left.
pub proof fn law_failure_goes_on(state: EngineView, reason: Seq<char>)
    requires
        state.wf(),
        state.phase is Selecting || state.phase is Searching,
    ensures
        task_done(
            state,
            state.next(EventView::Failed(reason)),
            outcome_of(
                state,
                0,
                DispositionView::Failed {
                    stage: if state.phase is Selecting {
                        Stage::Select
                    } else {
                        Stage::Search
                    },
                    reason,
                },
                None,
            ),
        ),
{
    if state.phase is Selecting {
        state.lemma_settle(0, DispositionView::Failed { stage: Stage::Select, reason });
    } else {
        state.lemma_settle(0, DispositionView::Failed { stage: Stage::Search, reason });
    }
}

/// A run that is finished has one outcome for each task of the plan, in the
/// order of the plan.
pub proof fn law_one_outcome_per_task(state: EngineView)
    requires
        state.wf(),
        state.phase is Finished,
    ensures
        state.outcomes.len() == state.plan.len(),
        forall|i: int|
            0 <= i < state.plan.len() ==> (#[trigger] state.outcomes[i]).folder
                == state.plan[i].folder && state.outcomes[i].rule == state.plan[i].rule,
{
}

/// How far a run is from its end: the tasks that are left weigh most, then
/// the requests that the task at hand may still need.
pub open spec fn distance(state: EngineView) -> nat {
    (4 * (state.plan.len() - state.cursor) + match state.phase {
        Phase::Selecting => 3nat,
        Phase::Searching => 2nat,
        Phase::Inspecting => 1nat,
        Phase::Moving => 0nat,
        Phase::Finished => 0nat,
    }) as nat
}

/// Every reply that answers the pending request brings the run nearer to
/// its end, and a run that is not finished has a request pending that some
/// reply answers: a run whose requests are answered comes to its end.
pub proof fn law_run_ends(state: EngineView, event: EventView)
    requires
        state.wf(),
    ensures
        state.expects(event) ==> distance(state.next(event)) < distance(state),
        !(state.phase is Finished) ==> !(state.pending() is Finish) && state.expects(
            EventView::Failed(Seq::empty()),
        ),
        state.phase is Finished ==> state.pending() is Finish && distance(state) == 0,
{
    if state.expects(event) {
        state.lemma_next_wf(event);
        match state.phase {
            Phase::Selecting => {
                if event is Failed {
                    state.lemma_settle(
                        0,
                        DispositionView::Failed { stage: Stage::Select, reason: event->Failed_0 },
                    );
                }
            },
            Phase::Searching => {
                match event {
                    EventView::Found(ids) => {
                        if ids.len() == 0 {
                            state.lemma_settle(0, DispositionView::SkippedNoMatch);
                        } else {
                            let found = EngineView { ids: first_seen(ids), ..state };
                            found.lemma_settle(found.ids.len(), DispositionView::SkippedDisabled);
                        }
                    },
                    EventView::Failed(reason) => {
                        state.lemma_settle(
                            0,
                            DispositionView::Failed { stage: Stage::Search, reason },
                        );
                    },
                    _ => {},
                }
            },
            Phase::Inspecting => {
                let told = EngineView { note: noted(event), ..state };
                told.lemma_settle(told.ids.len(), DispositionView::SkippedDisabled);
            },
            Phase::Moving => {
                match event {
                    EventView::Failed(reason) => {
                        state.lemma_settle(
                            state.ids.len(),
                            DispositionView::Failed { stage: Stage::Move, reason },
                        );
                    },
                    _ => {
                        state.lemma_settle(state.ids.len(), DispositionView::Moved);
                    },
                }
            },
            Phase::Finished => {},
        }
    }
}

/// Two ascending lists with the same texts are the same list: the tags of a
/// rule set, or of an entry, can be listed in one way only.
pub proof fn law_ascending_list_is_unique(a: Seq<Seq<char>>, b: Seq<Seq<char>>)
    requires
        ascending(a),
        ascending(b),
        forall|t: Seq<char>| a.contains(t) <==> b.contains(t),
    ensures
        a == b,
    decreases a.len(),
{
    if a.len() == 0 {
        if b.len() > 0 {
            assert(b.contains(b[0]));
        }
        assert(a =~= b);
    } else {
        assert(a.contains(a.last()));
        assert(b.len() > 0);
        assert(b.contains(b.last()));
        let i = choose|i: int| 0 <= i < b.len() && b[i] == a.last();
        let j = choose|j: int| 0 <= j < a.len() && a[j] == b.last();
        lemma_text_order_total(a.last(), b.last());
        assert(a.last() == b.last());
        let front_a = a.drop_last();
        let front_b = b.drop_last();
        assert forall|t: Seq<char>| front_a.contains(t) <==> front_b.contains(t) by {
            lemma_text_order_total(t, a.last());
            if front_a.contains(t) {
                let k = choose|k: int| 0 <= k < front_a.len() && front_a[k] == t;
                assert(a[k] == t);
                assert(a.contains(t));
                let m = choose|m: int| 0 <= m < b.len() && b[m] == t;
                assert(text_before(a[k], a[a.len() - 1]));
                assert(front_b[m] == t);
            }
            if front_b.contains(t) {
                let k = choose|k: int| 0 <= k < front_b.len() && front_b[k] == t;
                assert(b[k] == t);
                assert(b.contains(t));
                let m = choose|m: int| 0 <= m < a.len() && a[m] == t;
                assert(text_before(b[k], b[b.len() - 1]));
                assert(front_a[m] == t);
            }
        }
        assert(ascending(front_a)) by {
            assert forall|i: int, j: int| 0 <= i < j < front_a.len() implies text_before(
                #[trigger] front_a[i],
                #[trigger] front_a[j],
            ) by {
                assert(text_before(a[i], a[j]));
            }
        }
        assert(ascending(front_b)) by {
            assert forall|i: int, j: int| 0 <= i < j < front_b.len() implies text_before(
                #[trigger] front_b[i],
                #[trigger] front_b[j],
            ) by {
                assert(text_before(b[i], b[j]));
            }
        }
        law_ascending_list_is_unique(front_a, front_b);
        assert(a =~= front_a.push(a.last()));
        assert(b =~= front_b.push(b.last()));
    }
}

} // verus!
