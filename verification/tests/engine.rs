use imap_sorter::engine::Action;
use imap_sorter::engine::Engine;
use imap_sorter::engine::Event;
use imap_sorter::outcome::Disposition;
use imap_sorter::outcome::Stage;
use imap_sorter::rules::FolderRule;
use imap_sorter::rules::Rule;
use imap_sorter::rules::RulesSet;

fn spam_rule(enable: bool, tags: Option<Vec<String>>) -> Rule {
    Rule {
        name: "spam".to_string(),
        filter: "FROM spam@x".to_string(),
        target: "Spam".to_string(),
        enable,
        tags,
    }
}

fn inbox_with(rules: Vec<Rule>) -> RulesSet {
    RulesSet {
        folders: vec![FolderRule { folder: "INBOX".to_string(), folders: None, rules }],
    }
}

#[test]
fn enabled_rule_moves_the_three_messages() {
    let rules = inbox_with(vec![spam_rule(true, Some(vec![]))]);
    let engine = Engine::new(&rules, None, None, false, false, false);
    assert_eq!(engine.pending(), Action::Select { folder: "INBOX".to_string() });
    let engine = engine.step(Event::Selected);
    assert_eq!(engine.pending(), Action::Search { filter: "FROM spam@x".to_string() });
    let engine = engine.step(Event::Found(vec![1, 2, 3]));
    assert_eq!(
        engine.pending(),
        Action::Move { ids: vec![1, 2, 3], target: "Spam".to_string() }
    );
    let engine = engine.step(Event::Moved);
    assert_eq!(engine.pending(), Action::Finish);
    assert!(engine.is_finished());
    let outcomes = engine.into_outcomes();
    assert_eq!(outcomes.len(), 1);
    assert_eq!(outcomes[0].folder, "INBOX");
    assert_eq!(outcomes[0].rule.name, "spam");
    assert_eq!(outcomes[0].matched, 3);
    assert_eq!(outcomes[0].disposition, Disposition::Moved);
    assert_eq!(outcomes[0].inspection_error, None);
}

#[test]
fn disabled_rule_moves_nothing() {
    let rules = inbox_with(vec![spam_rule(false, Some(vec![]))]);
    let engine = Engine::new(&rules, None, None, false, false, false);
    let engine = engine.step(Event::Selected);
    let engine = engine.step(Event::Found(vec![1, 2, 3]));
    assert_eq!(engine.pending(), Action::Finish);
    let outcomes = engine.into_outcomes();
    assert_eq!(outcomes.len(), 1);
    assert_eq!(outcomes[0].matched, 3);
    assert_eq!(outcomes[0].disposition, Disposition::SkippedDisabled);
}

#[test]
fn rule_with_another_tag_is_passed_over() {
    let rules = inbox_with(vec![spam_rule(true, Some(vec!["personal".to_string()]))]);
    let engine = Engine::new(&rules, None, Some("work".to_string()), false, false, false);
    assert_eq!(engine.pending(), Action::Finish);
    let outcomes = engine.into_outcomes();
    assert_eq!(outcomes.len(), 1);
    assert_eq!(outcomes[0].matched, 0);
    assert_eq!(outcomes[0].disposition, Disposition::SkippedTagFilter);
}

#[test]
fn failed_search_goes_on_to_the_next_rule() {
    let mut second = spam_rule(true, None);
    second.name = "second".to_string();
    let rules = inbox_with(vec![spam_rule(true, None), second]);
    let engine = Engine::new(&rules, None, None, false, false, false);
    let engine = engine.step(Event::Selected);
    let engine = engine.step(Event::Failed("connection lost".to_string()));
    assert_eq!(engine.pending(), Action::Select { folder: "INBOX".to_string() });
    assert_eq!(engine.outcomes().len(), 1);
    assert_eq!(
        engine.outcomes()[0].disposition,
        Disposition::Failed { stage: Stage::Search, reason: "connection lost".to_string() }
    );
    assert_eq!(engine.current().map(|task| task.rule.name.clone()), Some("second".to_string()));
}

fn named_rule(name: &str, enable: bool, tags: Option<Vec<String>>) -> Rule {
    Rule {
        name: name.to_string(),
        filter: format!("SUBJECT {}", name),
        target: format!("Sorted/{}", name),
        enable,
        tags,
    }
}

fn found_three(engine: Engine) -> Engine {
    engine.step(Event::Selected).step(Event::Found(vec![1, 2, 3]))
}

#[test]
fn outcome_messages_of_the_scenarios() {
    let rules = inbox_with(vec![spam_rule(true, Some(vec![]))]);
    let outcomes =
        found_three(Engine::new(&rules, None, None, false, false, false)).step(Event::Moved).into_outcomes();
    assert_eq!(outcomes[0].message(), Some("processed 3 messages".to_string()));

    let rules = inbox_with(vec![spam_rule(false, Some(vec![]))]);
    let outcomes = found_three(Engine::new(&rules, None, None, false, false, false)).into_outcomes();
    assert_eq!(
        outcomes[0].message(),
        Some("rule disabled, did not process 3 messages".to_string())
    );

    let rules = inbox_with(vec![spam_rule(true, Some(vec!["personal".to_string()]))]);
    let outcomes =
        Engine::new(&rules, None, Some("work".to_string()), false, false, false).into_outcomes();
    assert_eq!(outcomes[0].message(), None);
}

#[test]
fn empty_search_result_ends_the_rule_without_fetch_or_move() {
    for inspect in [false, true] {
        for force in [false, true] {
            let rules = inbox_with(vec![spam_rule(true, None)]);
            let engine = Engine::new(&rules, None, None, false, force, inspect);
            let engine = engine.step(Event::Selected).step(Event::Found(vec![]));
            assert_eq!(engine.pending(), Action::Finish);
            let outcomes = engine.into_outcomes();
            assert_eq!(outcomes.len(), 1);
            assert_eq!(outcomes[0].matched, 0);
            assert_eq!(outcomes[0].disposition, Disposition::SkippedNoMatch);
            assert_eq!(outcomes[0].message(), Some("nothing to move".to_string()));
        }
    }
}

#[test]
fn simulation_keeps_an_enabled_rule_from_moving() {
    let rules = inbox_with(vec![spam_rule(true, None)]);
    let engine = found_three(Engine::new(&rules, None, None, true, false, false));
    assert_eq!(engine.pending(), Action::Finish);
    let outcomes = engine.into_outcomes();
    assert_eq!(outcomes[0].disposition, Disposition::SkippedDisabled);
    assert_eq!(outcomes[0].matched, 3);
}

#[test]
fn force_moves_a_disabled_rule_even_in_simulation() {
    for simulate in [false, true] {
        let rules = inbox_with(vec![spam_rule(false, None)]);
        let engine = found_three(Engine::new(&rules, None, None, simulate, true, false));
        assert_eq!(
            engine.pending(),
            Action::Move { ids: vec![1, 2, 3], target: "Spam".to_string() }
        );
        let outcomes = engine.step(Event::Moved).into_outcomes();
        assert_eq!(outcomes[0].disposition, Disposition::Moved);
        assert_eq!(outcomes[0].matched, 3);
        assert_eq!(outcomes[0].message(), Some("processed 3 messages".to_string()));
    }
}

#[test]
fn inspection_fetches_before_the_decision() {
    let rules = inbox_with(vec![spam_rule(true, None)]);
    let engine = found_three(Engine::new(&rules, None, None, false, false, true));
    assert_eq!(engine.pending(), Action::Fetch { ids: vec![1, 2, 3] });
    let engine = engine.step(Event::Fetched);
    assert_eq!(engine.pending(), Action::Move { ids: vec![1, 2, 3], target: "Spam".to_string() });
    let outcomes = engine.step(Event::Moved).into_outcomes();
    assert_eq!(outcomes[0].disposition, Disposition::Moved);
    assert_eq!(outcomes[0].inspection_error, None);
    assert_eq!(outcomes[0].warning(), None);
}

#[test]
fn failed_inspection_does_not_block_the_move() {
    let rules = inbox_with(vec![spam_rule(true, None)]);
    let engine = found_three(Engine::new(&rules, None, None, false, false, true));
    let engine = engine.step(Event::Failed("no envelope".to_string()));
    assert_eq!(engine.pending(), Action::Move { ids: vec![1, 2, 3], target: "Spam".to_string() });
    let outcomes = engine.step(Event::Moved).into_outcomes();
    assert_eq!(outcomes[0].disposition, Disposition::Moved);
    assert_eq!(outcomes[0].matched, 3);
    assert_eq!(outcomes[0].inspection_error, Some("no envelope".to_string()));
    assert_eq!(outcomes[0].warning(), Some("fetch failed: no envelope".to_string()));
}

#[test]
fn failed_inspection_of_a_disabled_rule_is_still_reported() {
    let rules = inbox_with(vec![spam_rule(false, None), spam_rule(false, None)]);
    let engine = found_three(Engine::new(&rules, None, None, false, false, true));
    let engine = engine.step(Event::Failed("no envelope".to_string()));
    assert_eq!(engine.pending(), Action::Select { folder: "INBOX".to_string() });
    let engine = found_three(engine).step(Event::Fetched);
    let outcomes = engine.into_outcomes();
    assert_eq!(outcomes.len(), 2);
    assert_eq!(outcomes[0].disposition, Disposition::SkippedDisabled);
    assert_eq!(outcomes[0].inspection_error, Some("no envelope".to_string()));
    assert_eq!(outcomes[1].disposition, Disposition::SkippedDisabled);
    assert_eq!(outcomes[1].inspection_error, None);
}

#[test]
fn failed_move_keeps_the_count_and_goes_on() {
    let rules = inbox_with(vec![spam_rule(true, None), named_rule("next", true, None)]);
    let engine = found_three(Engine::new(&rules, None, None, false, false, false));
    let engine = engine.step(Event::Failed("target missing".to_string()));
    assert_eq!(engine.pending(), Action::Select { folder: "INBOX".to_string() });
    let engine = engine.step(Event::Selected);
    assert_eq!(engine.pending(), Action::Search { filter: "SUBJECT next".to_string() });
    let outcomes = engine.step(Event::Found(vec![])).into_outcomes();
    assert_eq!(outcomes.len(), 2);
    assert_eq!(outcomes[0].matched, 3);
    assert_eq!(
        outcomes[0].disposition,
        Disposition::Failed { stage: Stage::Move, reason: "target missing".to_string() }
    );
    assert_eq!(outcomes[0].message(), Some("move failed: target missing".to_string()));
    assert_eq!(outcomes[1].disposition, Disposition::SkippedNoMatch);
}

#[test]
fn failed_selection_ends_the_rule_only() {
    let rules = inbox_with(vec![spam_rule(true, None), named_rule("next", true, None)]);
    let engine = Engine::new(&rules, None, None, false, false, false);
    let engine = engine.step(Event::Failed("no such folder".to_string()));
    assert_eq!(engine.pending(), Action::Select { folder: "INBOX".to_string() });
    assert_eq!(engine.outcomes().len(), 1);
    assert_eq!(engine.outcomes()[0].matched, 0);
    assert_eq!(
        engine.outcomes()[0].disposition,
        Disposition::Failed { stage: Stage::Select, reason: "no such folder".to_string() }
    );
    assert_eq!(engine.outcomes()[0].message(), Some("select failed: no such folder".to_string()));
    assert!(!engine.is_finished());
}

#[test]
fn search_failure_message_names_the_stage() {
    let rules = inbox_with(vec![spam_rule(true, None)]);
    let engine = Engine::new(&rules, None, None, false, false, false);
    let outcomes =
        engine.step(Event::Selected).step(Event::Failed("bad filter".to_string())).into_outcomes();
    assert_eq!(outcomes[0].message(), Some("search failed: bad filter".to_string()));
}

#[test]
fn repeated_message_numbers_count_once() {
    let rules = inbox_with(vec![spam_rule(true, None)]);
    let engine = Engine::new(&rules, None, None, false, false, false);
    let engine = engine.step(Event::Selected).step(Event::Found(vec![4, 4, 2, 4, 2]));
    assert_eq!(engine.pending(), Action::Move { ids: vec![4, 2], target: "Spam".to_string() });
    let outcomes = engine.step(Event::Moved).into_outcomes();
    assert_eq!(outcomes[0].matched, 2);
}

#[test]
fn reply_out_of_turn_changes_nothing() {
    let rules = inbox_with(vec![spam_rule(true, None)]);
    let engine = Engine::new(&rules, None, None, false, false, false);
    assert!(engine.expects(&Event::Selected));
    assert!(engine.expects(&Event::Failed("x".to_string())));
    assert!(!engine.expects(&Event::Moved));
    assert!(!engine.expects(&Event::Found(vec![1])));
    assert!(!engine.expects(&Event::Fetched));
    let engine = engine.step(Event::Moved).step(Event::Found(vec![1])).step(Event::Fetched);
    assert_eq!(engine.pending(), Action::Select { folder: "INBOX".to_string() });
    assert_eq!(engine.outcomes().len(), 0);
    let engine = engine.step(Event::Selected);
    assert!(engine.expects(&Event::Found(vec![])));
    assert!(!engine.expects(&Event::Selected));
    let engine = engine.step(Event::Selected).step(Event::Moved);
    assert_eq!(engine.pending(), Action::Search { filter: "FROM spam@x".to_string() });
    let engine = engine.step(Event::Found(vec![1]));
    assert!(engine.expects(&Event::Moved));
    assert!(!engine.expects(&Event::Fetched));
    let engine = engine.step(Event::Fetched).step(Event::Selected);
    assert_eq!(engine.pending(), Action::Move { ids: vec![1], target: "Spam".to_string() });
    let engine = engine.step(Event::Moved);
    assert!(engine.is_finished());
    assert!(!engine.expects(&Event::Moved));
    assert!(!engine.expects(&Event::Failed("x".to_string())));
    let engine = engine.step(Event::Moved).step(Event::Failed("late".to_string()));
    assert_eq!(engine.pending(), Action::Finish);
    assert_eq!(engine.outcomes().len(), 1);
}

#[test]
fn rule_set_without_rules_finishes_at_once() {
    let engine = Engine::new(&RulesSet { folders: vec![] }, None, None, false, false, false);
    assert!(engine.is_finished());
    assert_eq!(engine.pending(), Action::Finish);
    assert_eq!(engine.current(), None);
    assert_eq!(engine.into_outcomes().len(), 0);

    let engine = Engine::new(&inbox_with(vec![]), None, None, false, false, false);
    assert_eq!(engine.pending(), Action::Finish);
    assert_eq!(engine.into_outcomes().len(), 0);
}

#[test]
fn folders_are_visited_in_first_seen_order_and_rules_in_document_order() {
    let rules = RulesSet {
        folders: vec![
            FolderRule {
                folder: "INBOX".to_string(),
                folders: Some(vec!["Lists".to_string()]),
                rules: vec![named_rule("a", true, None), named_rule("b", true, None)],
            },
            FolderRule {
                folder: "Lists".to_string(),
                folders: None,
                rules: vec![named_rule("c", true, None)],
            },
        ],
    };
    let mut engine = Engine::new(&rules, None, None, false, false, false);
    let mut asked: Vec<(String, String)> = Vec::new();
    while !engine.is_finished() {
        match engine.pending() {
            Action::Select { folder } => {
                let name = engine.current().map(|task| task.rule.name.clone());
                asked.push((folder, name.unwrap_or_default()));
                engine = engine.step(Event::Selected);
            }
            Action::Search { .. } => engine = engine.step(Event::Found(vec![])),
            other => panic!("unexpected request {:?}", other),
        }
    }
    let expected: Vec<(String, String)> =
        vec![("INBOX", "a"), ("INBOX", "b"), ("Lists", "a"), ("Lists", "b"), ("Lists", "c")]
            .into_iter()
            .map(|(folder, name)| (folder.to_string(), name.to_string()))
            .collect();
    assert_eq!(asked, expected);
    let outcomes = engine.into_outcomes();
    let recorded: Vec<(String, String)> =
        outcomes.iter().map(|o| (o.folder.clone(), o.rule.name.clone())).collect();
    assert_eq!(recorded, expected);
}

#[test]
fn folder_filter_restricts_the_run_to_one_folder() {
    let rules = RulesSet {
        folders: vec![
            FolderRule {
                folder: "INBOX".to_string(),
                folders: None,
                rules: vec![named_rule("a", true, None)],
            },
            FolderRule {
                folder: "Lists".to_string(),
                folders: Some(vec!["Work".to_string()]),
                rules: vec![named_rule("c", true, None)],
            },
        ],
    };
    let engine = Engine::new(&rules, Some("Work".to_string()), None, false, false, false);
    assert_eq!(engine.pending(), Action::Select { folder: "Work".to_string() });
    let engine = engine.step(Event::Selected).step(Event::Found(vec![]));
    assert_eq!(engine.pending(), Action::Finish);
    let outcomes = engine.into_outcomes();
    assert_eq!(outcomes.len(), 1);
    assert_eq!(outcomes[0].folder, "Work");
    assert_eq!(outcomes[0].rule.name, "c");

    let engine = Engine::new(&rules, Some("Nowhere".to_string()), None, false, false, false);
    assert_eq!(engine.pending(), Action::Finish);
    assert_eq!(engine.into_outcomes().len(), 0);
}

#[test]
fn tag_filter_passes_over_rules_between_the_others() {
    let work = Some(vec!["work".to_string()]);
    let rules = inbox_with(vec![
        named_rule("skip1", true, None),
        named_rule("run1", true, work.clone()),
        named_rule("skip2", true, Some(vec!["home".to_string()])),
        named_rule("run2", false, work),
        named_rule("skip3", true, Some(vec![])),
    ]);
    let engine = Engine::new(&rules, None, Some("work".to_string()), false, false, false);
    assert_eq!(engine.outcomes().len(), 1);
    assert_eq!(engine.current().map(|task| task.rule.name.clone()), Some("run1".to_string()));
    let engine = engine.step(Event::Selected).step(Event::Found(vec![8])).step(Event::Moved);
    assert_eq!(engine.outcomes().len(), 3);
    assert_eq!(engine.current().map(|task| task.rule.name.clone()), Some("run2".to_string()));
    let engine = engine.step(Event::Selected).step(Event::Found(vec![9]));
    assert!(engine.is_finished());
    let outcomes = engine.into_outcomes();
    let summary: Vec<(String, Disposition, usize)> = outcomes
        .into_iter()
        .map(|o| (o.rule.name, o.disposition, o.matched))
        .collect();
    assert_eq!(
        summary,
        vec![
            ("skip1".to_string(), Disposition::SkippedTagFilter, 0),
            ("run1".to_string(), Disposition::Moved, 1),
            ("skip2".to_string(), Disposition::SkippedTagFilter, 0),
            ("run2".to_string(), Disposition::SkippedDisabled, 1),
            ("skip3".to_string(), Disposition::SkippedTagFilter, 0),
        ]
    );
}

#[test]
fn rule_targeting_its_own_folder_is_still_moved() {
    let mut own = spam_rule(true, None);
    own.target = "INBOX".to_string();
    let engine = found_three(Engine::new(&inbox_with(vec![own]), None, None, false, false, false));
    assert_eq!(engine.pending(), Action::Move { ids: vec![1, 2, 3], target: "INBOX".to_string() });
}

#[test]
fn report_line_names_folder_rule_filter_and_target() {
    let rules = inbox_with(vec![spam_rule(true, Some(vec!["junk".to_string()]))]);
    let outcomes =
        found_three(Engine::new(&rules, None, None, false, false, false)).step(Event::Moved).into_outcomes();
    assert_eq!(
        outcomes[0].report(),
        Some("INBOX: spam [junk]: FROM spam@x -> Spam: processed 3 messages".to_string())
    );
    let outcomes =
        Engine::new(&rules, None, Some("work".to_string()), false, false, false).into_outcomes();
    assert_eq!(outcomes[0].report(), None);
}
