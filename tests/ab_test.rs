use eqapo_gui::ab_test::{ABTestMode, ABTrials, ActiveOption, SessionState};

#[test]
fn new_session_draws_one_assignment_per_trial() {
    let t = ABTrials::new(ABTestMode::ABX, 10, 42, 1000);
    assert_eq!(t.hidden_mapping.len(), 10);
    assert_eq!(t.x_is_a.len(), 10);
    assert_eq!(t.current_trial, 0);
    assert_eq!(t.state, SessionState::Running);
    assert_eq!(t.start_time, 1000);
    // the same seed gives the same assignments
    let again = ABTrials::new(ABTestMode::ABX, 10, 42, 5);
    assert_eq!(t.hidden_mapping, again.hidden_mapping);
    assert_eq!(t.x_is_a, again.x_is_a);
}

#[test]
fn abx_answers_are_scored() {
    let mut t = ABTrials::new(ABTestMode::ABX, 3, 7, 0);
    t.x_is_a = vec![true, false, true];
    assert!(t.option_is_a(ActiveOption::X));
    t.record_answer("X is A".to_string(), 1500).unwrap();
    assert!(!t.option_is_a(ActiveOption::X));
    t.record_answer("X is A".to_string(), 2000).unwrap();
    t.record_answer("X is B".to_string(), 2100).unwrap();
    assert_eq!(t.state, SessionState::Results);
    assert_eq!(t.answers[0].correct, Some(true));
    assert_eq!(t.answers[0].time_ms, 1500);
    assert_eq!(t.answers[0].x_is_a, Some(true));
    assert_eq!(t.answers[1].correct, Some(false));
    assert_eq!(t.answers[1].time_ms, 500);
    assert_eq!(t.answers[2].correct, Some(false));
    let tally = t.tally();
    assert_eq!((tally.correct, tally.incorrect), (1, 2));
    assert_eq!((tally.preference_a, tally.preference_b), (0, 0));
    assert!(t.record_answer("X is A".to_string(), 3000).is_err());
    assert_eq!(t.answers.len(), 3);
}

#[test]
fn blind_preferences_follow_hidden_mapping() {
    let mut t = ABTrials::new(ABTestMode::BlindAB, 2, 1, 0);
    t.hidden_mapping = vec![true, false];
    assert!(t.blind_option_is_a(1));
    assert!(!t.blind_option_is_a(2));
    t.record_answer("Option 1".to_string(), 10).unwrap();
    assert!(!t.blind_option_is_a(1));
    t.record_answer("Option 1".to_string(), 20).unwrap();
    let tally = t.tally();
    assert_eq!((tally.preference_a, tally.preference_b), (1, 1));
    assert_eq!(t.answers[0].x_is_a, None);
    assert_eq!(t.answers[0].correct, None);
}

#[test]
fn open_test_counts_choices_and_reveals_presets() {
    let mut t = ABTrials::new(ABTestMode::AB, 3, 1, 0);
    assert!(t.reveals_presets());
    assert!(t.option_is_a(ActiveOption::A));
    assert!(!t.option_is_a(ActiveOption::B));
    for c in ["A", "B", "A"] {
        t.record_answer(c.to_string(), 0).unwrap();
    }
    let tally = t.tally();
    assert_eq!((tally.preference_a, tally.preference_b), (2, 1));
}

#[test]
fn blind_test_reveals_presets_only_with_results() {
    let mut t = ABTrials::new(ABTestMode::BlindAB, 1, 3, 0);
    assert!(!t.reveals_presets());
    t.record_answer("Option 2".to_string(), 0).unwrap();
    assert!(t.reveals_presets());
}

#[test]
fn zero_trial_session_ends_after_one_answer() {
    let mut t = ABTrials::new(ABTestMode::AB, 0, 3, 0);
    assert!(t.hidden_mapping.is_empty());
    assert!(!t.option_is_a(ActiveOption::X));
    t.record_answer("A".to_string(), 0).unwrap();
    assert_eq!(t.state, SessionState::Results);
}

#[test]
fn options_select_playback_and_preset() {
    let mut t = ABTrials::new(ABTestMode::ABX, 2, 9, 0);
    t.x_is_a = vec![false, true];
    t.hidden_mapping = vec![false, true];
    assert_eq!(t.select_option("A"), Some(true));
    assert_eq!(t.active_option, Some(ActiveOption::A));
    assert_eq!(t.select_option("B"), Some(false));
    assert_eq!(t.active_option, Some(ActiveOption::B));
    assert_eq!(t.select_option("X"), Some(false));
    assert_eq!(t.active_option, Some(ActiveOption::X));
    assert_eq!(t.select_option("1"), Some(false));
    assert_eq!(t.active_option, Some(ActiveOption::A));
    assert_eq!(t.select_option("2"), Some(true));
    assert_eq!(t.active_option, Some(ActiveOption::B));
    assert_eq!(t.select_option("C"), None);
    assert_eq!(t.select_option("AB"), None);
    assert_eq!(t.select_option(""), None);
    assert_eq!(t.active_option, Some(ActiveOption::B));
    t.record_answer("X is A".to_string(), 1).unwrap();
    assert_eq!(t.select_option("X"), Some(true));
    assert_eq!(t.select_option("1"), Some(true));
}
