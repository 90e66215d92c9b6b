use wbm_downloader::scheduler::{run_schedule, store_contains, CaptureOutcome};

#[test]
fn fresh_keys_are_downloaded_and_stored() {
    let keys = vec!["20220100010000".to_string(), "20220215000000".to_string()];
    let mut store: Vec<String> = Vec::new();
    let outcomes = run_schedule(&keys, &mut store, &vec![true, true], &vec![true, true]);
    assert_eq!(outcomes, vec![CaptureOutcome::Downloaded, CaptureOutcome::Downloaded]);
    assert!(store_contains(&store, &keys[0]));
    assert!(store_contains(&store, &keys[1]));
    assert_eq!(store.len(), 2);
}

#[test]
fn second_run_skips_everything_and_changes_nothing() {
    let keys = vec!["20220100010000".to_string(), "20220215000000".to_string()];
    let mut store: Vec<String> = Vec::new();
    run_schedule(&keys, &mut store, &vec![true, true], &vec![true, true]);
    let after_first = store.clone();
    // The second run's transports would fail every request; since every
    // key is already stored, they are never consulted.
    let outcomes = run_schedule(&keys, &mut store, &vec![false, false], &vec![false, false]);
    assert_eq!(outcomes, vec![CaptureOutcome::AlreadyStored, CaptureOutcome::AlreadyStored]);
    assert_eq!(store, after_first);
}

#[test]
fn one_failure_does_not_abort_the_batch() {
    let keys = vec![
        "20220100010000".to_string(),
        "20220215000000".to_string(),
        "20220320000000".to_string(),
    ];
    let mut store: Vec<String> = Vec::new();
    let outcomes = run_schedule(
        &keys,
        &mut store,
        &vec![true, false, true],
        &vec![true, true, true],
    );
    assert_eq!(
        outcomes,
        vec![CaptureOutcome::Downloaded, CaptureOutcome::FetchFailed, CaptureOutcome::Downloaded]
    );
    assert!(store_contains(&store, &keys[0]));
    assert!(!store_contains(&store, &keys[1]));
    assert!(store_contains(&store, &keys[2]));
}

#[test]
fn failed_save_leaves_the_key_for_a_later_run() {
    let keys = vec!["20220100010000".to_string()];
    let mut store: Vec<String> = Vec::new();
    let outcomes = run_schedule(&keys, &mut store, &vec![true], &vec![false]);
    assert_eq!(outcomes, vec![CaptureOutcome::SaveFailed]);
    assert!(!store_contains(&store, &keys[0]));
    let outcomes = run_schedule(&keys, &mut store, &vec![true], &vec![true]);
    assert_eq!(outcomes, vec![CaptureOutcome::Downloaded]);
    assert!(store_contains(&store, &keys[0]));
}

#[test]
fn duplicate_keys_are_downloaded_once() {
    let keys = vec!["20220100010000".to_string(), "20220100010000".to_string()];
    let mut store: Vec<String> = Vec::new();
    let outcomes = run_schedule(&keys, &mut store, &vec![true, true], &vec![true, true]);
    assert_eq!(outcomes, vec![CaptureOutcome::Downloaded, CaptureOutcome::AlreadyStored]);
    assert_eq!(store.len(), 1);
}
