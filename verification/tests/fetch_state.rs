use jobsearch::fetch_state::FetchState;
use jobsearch::fetch_state::{card_step, new_positions, CardStep, UpsertOutcome};

#[test]
fn skipped_increments_checked_and_summary() {
    let mut state = FetchState::new();
    state.inc_new();
    state.inc_existing();
    state.inc_skipped();
    state.inc_skipped();

    assert_eq!(state.checked(), 4);
    assert_eq!(state.new_count(), 1);
    assert_eq!(state.existing(), 1);
    assert_eq!(
        state.summary(),
        "Total checked: 4 (1 new, 1 existing, 2 skipped)"
    );
}

#[test]
fn progress_line_includes_skipped() {
    let mut state = FetchState::new();
    state.inc_skipped();
    let line = state.progress_line(Some(5), "test");
    assert!(line.contains("1/5"));
}

#[test]
fn progress_without_total_and_long_names() {
    let mut state = FetchState::default();
    state.inc_existing_n(12);
    state.inc_new();
    assert_eq!(state.checked(), 13);
    let line = state.progress_line(None, &"x".repeat(50));
    assert_eq!(line, format!("\r    Progress:    13 {}", "x".repeat(40)));
    let line = state.progress_line(Some(100), "ab");
    assert_eq!(line, format!("\r    Progress:    13/100   ab{}", " ".repeat(38)));
}

#[test]
fn card_steps_and_counting() {
    assert_eq!(card_step(true, true), CardStep::Existing);
    assert_eq!(card_step(false, true), CardStep::Skipped);
    assert_eq!(card_step(false, false), CardStep::Fetch);
    let mut state = FetchState::new();
    state.count_stored(UpsertOutcome::New);
    state.count_stored(UpsertOutcome::Duplicate);
    state.count_stored(UpsertOutcome::Updated);
    assert_eq!(state.new_count(), 1);
    assert_eq!(state.existing(), 2);
    assert_eq!(state.summary(), "Total checked: 3 (1 new, 2 existing, 0 skipped)");
}

#[test]
fn results_not_seen_before() {
    let ids: Vec<String> = vec!["a".into(), "b".into(), "c".into(), "b".into()];
    let new_ids: Vec<String> = vec!["b".into(), "z".into()];
    assert_eq!(new_positions(&ids, &new_ids), vec![1, 3]);
    assert_eq!(new_positions(&ids, &vec![]), Vec::<usize>::new());
    assert_eq!(new_positions(&vec![], &new_ids), Vec::<usize>::new());
}

#[test]
fn running_totals_over_interleaved_counts() {
    let mut state = FetchState::new();
    state.inc_new();
    state.inc_existing_n(3);
    state.inc_skipped();
    state.inc_new();
    state.inc_existing();
    assert_eq!(state.checked(), 7);
    assert_eq!(state.new_count(), 2);
    assert_eq!(state.existing(), 4);
    assert_eq!(state.summary(), "Total checked: 7 (2 new, 4 existing, 1 skipped)");
}
