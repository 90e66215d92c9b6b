//! The download pipeline over the filtered capture list: each capture is
//! skipped when its file already exists, otherwise fetched and handed to
//! the store, and one capture's failure never aborts the batch. The
//! outside work — the fetch and the write — is performed by the caller;
//! this module holds the per-item decisions and the verified model of a
//! whole run against a store, from which the pipeline's resumability is
//! proved: a run over already-stored keys fetches nothing.
use vstd::prelude::*;

verus! {

/// The terminal state one capture reaches in a run.
#[derive(Clone, Copy, PartialEq, Eq, Structural, Debug)]
pub enum CaptureOutcome {
    /// A file for the key already existed; no fetch was attempted.
    AlreadyStored,
    /// Fetched and written to the store.
    Downloaded,
    /// The fetch's retries were exhausted; the key is left absent, so a
    /// later run retries it.
    FetchFailed,
    /// Fetched, but the store write failed; likewise left for a later run.
    SaveFailed,
}

/// The set of keys a store holds, viewed from the file list.
pub open spec fn stored_keys(files: Seq<String>) -> Set<Seq<char>> {
    Set::new(|k: Seq<char>| exists|i: int| 0 <= i < files.len() && files[i]@ == k)
}

/// The store contents after the first `n` items of a run: an item's key is
/// added exactly when it was absent and both its fetch and its write
/// succeed.
pub open spec fn store_after(
    keys: Seq<Seq<char>>,
    store0: Set<Seq<char>>,
    fetch_ok: Seq<bool>,
    save_ok: Seq<bool>,
    n: int,
) -> Set<Seq<char>>
    decreases n,
{
    if n <= 0 {
        store0
    } else {
        let prev = store_after(keys, store0, fetch_ok, save_ok, n - 1);
        if !prev.contains(keys[n - 1]) && fetch_ok[n - 1] && save_ok[n - 1] {
            prev.insert(keys[n - 1])
        } else {
            prev
        }
    }
}

/// The terminal state item `i` of a run reaches, given the store contents
/// its turn begins with.
pub open spec fn outcome_at(
    keys: Seq<Seq<char>>,
    store0: Set<Seq<char>>,
    fetch_ok: Seq<bool>,
    save_ok: Seq<bool>,
    i: int,
) -> CaptureOutcome {
    let prev = store_after(keys, store0, fetch_ok, save_ok, i);
    if prev.contains(keys[i]) {
        CaptureOutcome::AlreadyStored
    } else if !fetch_ok[i] {
        CaptureOutcome::FetchFailed
    } else if !save_ok[i] {
        CaptureOutcome::SaveFailed
    } else {
        CaptureOutcome::Downloaded
    }
}

/// Whether a store holds a file for the key.
pub fn store_contains(store: &Vec<String>, key: &String) -> (r: bool)
    ensures
        r == stored_keys(store@).contains(key@),
{
    let mut i: usize = 0;
    while i < store.len()
        invariant
            i <= store@.len(),
            forall|k: int| 0 <= k < i ==> store@[k]@ != key@,
        decreases store@.len() - i,
    {
        if store[i] == *key {
            return true;
        }
        i = i + 1;
    }
    false
}

proof fn lemma_stored_push(files: Seq<String>, f: String)
    ensures
        stored_keys(files.push(f)) =~= stored_keys(files).insert(f@),
{
    let pushed = files.push(f);
    assert forall|k: Seq<char>| stored_keys(pushed).contains(k) implies stored_keys(
        files,
    ).insert(f@).contains(k) by {
        let i = choose|i: int| 0 <= i < pushed.len() && pushed[i]@ == k;
        if i < files.len() {
            assert(files[i]@ == k);
        } else {
            assert(pushed[i] == f);
        }
    }
    assert forall|k: Seq<char>| stored_keys(files).insert(f@).contains(k) implies stored_keys(
        pushed,
    ).contains(k) by {
        if k == f@ {
            assert(pushed[files.len() as int]@ == k);
        } else {
            let i = choose|i: int| 0 <= i < files.len() && files[i]@ == k;
            assert(pushed[i]@ == k);
        }
    }
}

/// One run of the pipeline, modelled against a store given as its file
/// list and against recorded fetch and write outcomes (consulted only for
/// items whose key is absent). Returns each item's terminal state; the
/// store gains exactly the keys that were absent and fetched and written
/// successfully.
pub fn run_schedule(
    keys: &Vec<String>,
    store: &mut Vec<String>,
    fetch_ok: &Vec<bool>,
    save_ok: &Vec<bool>,
) -> (outcomes: Vec<CaptureOutcome>)
    requires
        fetch_ok@.len() == keys@.len(),
        save_ok@.len() == keys@.len(),
    ensures
        outcomes@.len() == keys@.len(),
        forall|i: int|
            0 <= i < keys@.len() ==> #[trigger] outcomes@[i] == outcome_at(
                keys@.map_values(|k: String| k@),
                stored_keys(old(store)@),
                fetch_ok@,
                save_ok@,
                i,
            ),
        stored_keys(final(store)@) == store_after(
            keys@.map_values(|k: String| k@),
            stored_keys(old(store)@),
            fetch_ok@,
            save_ok@,
            keys@.len() as int,
        ),
{
    let ghost kv = keys@.map_values(|k: String| k@);
    let ghost store0 = stored_keys(store@);
    let mut outcomes: Vec<CaptureOutcome> = Vec::new();
    let mut i: usize = 0;
    while i < keys.len()
        invariant
            i <= keys@.len(),
            fetch_ok@.len() == keys@.len(),
            save_ok@.len() == keys@.len(),
            kv == keys@.map_values(|k: String| k@),
            outcomes@.len() == i,
            forall|j: int|
                0 <= j < i ==> #[trigger] outcomes@[j] == outcome_at(
                    kv,
                    store0,
                    fetch_ok@,
                    save_ok@,
                    j,
                ),
            stored_keys(store@) == store_after(kv, store0, fetch_ok@, save_ok@, i as int),
        decreases keys@.len() - i,
    {
        proof {
            assert(kv[i as int] == keys@[i as int]@);
        }
        let key = &keys[i];
        if store_contains(store, key) {
            outcomes.push(CaptureOutcome::AlreadyStored);
        } else if !fetch_ok[i] {
            outcomes.push(CaptureOutcome::FetchFailed);
        } else if !save_ok[i] {
            outcomes.push(CaptureOutcome::SaveFailed);
        } else {
            let ghost files_pre = store@;
            store.push(key.clone());
            proof {
                lemma_stored_push(files_pre, keys@[i as int]);
            }
            outcomes.push(CaptureOutcome::Downloaded);
        }
        i = i + 1;
    }
    outcomes
}

/// The store never loses a key during a run: what `store_after` holds at
/// any step, it holds at every later step.
pub proof fn lemma_store_after_monotonic(
    keys: Seq<Seq<char>>,
    store0: Set<Seq<char>>,
    fetch_ok: Seq<bool>,
    save_ok: Seq<bool>,
    n: int,
    m: int,
    k: Seq<char>,
)
    requires
        0 <= n <= m,
        store_after(keys, store0, fetch_ok, save_ok, n).contains(k),
    ensures
        store_after(keys, store0, fetch_ok, save_ok, m).contains(k),
    decreases m - n,
{
    if n < m {
        lemma_store_after_monotonic(keys, store0, fetch_ok, save_ok, n, m - 1, k);
    }
}

/// When every key of the run is already stored, the run changes nothing
/// and every item is skipped — no item ever consults its fetch outcome,
/// so the run performs no network fetch at all.
pub proof fn lemma_schedule_skips_stored(
    keys: Seq<Seq<char>>,
    store0: Set<Seq<char>>,
    fetch_ok: Seq<bool>,
    save_ok: Seq<bool>,
    n: int,
)
    requires
        0 <= n <= keys.len(),
        forall|i: int| 0 <= i < keys.len() ==> store0.contains(#[trigger] keys[i]),
    ensures
        store_after(keys, store0, fetch_ok, save_ok, n) == store0,
        forall|i: int|
            0 <= i < n ==> outcome_at(keys, store0, fetch_ok, save_ok, i)
                == CaptureOutcome::AlreadyStored,
    decreases n,
{
    if n > 0 {
        lemma_schedule_skips_stored(keys, store0, fetch_ok, save_ok, n - 1);
    }
}

/// After a run in which every fetch and every write succeeds, every key of
/// the run is stored.
pub proof fn lemma_schedule_completes(
    keys: Seq<Seq<char>>,
    store0: Set<Seq<char>>,
    fetch_ok: Seq<bool>,
    save_ok: Seq<bool>,
    n: int,
)
    requires
        0 <= n <= keys.len(),
        fetch_ok.len() == keys.len(),
        save_ok.len() == keys.len(),
        forall|i: int| 0 <= i < keys.len() ==> #[trigger] fetch_ok[i] && save_ok[i],
    ensures
        forall|i: int|
            0 <= i < n ==> store_after(keys, store0, fetch_ok, save_ok, n).contains(
                #[trigger] keys[i],
            ),
    decreases n,
{
    if n > 0 {
        lemma_schedule_completes(keys, store0, fetch_ok, save_ok, n - 1);
        assert forall|i: int| 0 <= i < n implies store_after(
            keys,
            store0,
            fetch_ok,
            save_ok,
            n,
        ).contains(#[trigger] keys[i]) by {
            if i < n - 1 {
                lemma_store_after_monotonic(keys, store0, fetch_ok, save_ok, n - 1, n, keys[i]);
            }
        }
    }
}

/// Idempotence of the pipeline: a second run over the same keys, against
/// the store a fully successful run left behind, skips every item — it
/// performs zero network fetches, whatever its transports would have
/// answered — and leaves the store unchanged.
pub proof fn lemma_rerun_idempotent(
    keys: Seq<Seq<char>>,
    store0: Set<Seq<char>>,
    fetch_ok1: Seq<bool>,
    save_ok1: Seq<bool>,
    fetch_ok2: Seq<bool>,
    save_ok2: Seq<bool>,
)
    requires
        fetch_ok1.len() == keys.len(),
        save_ok1.len() == keys.len(),
        forall|i: int| 0 <= i < keys.len() ==> #[trigger] fetch_ok1[i] && save_ok1[i],
    ensures
        ({
            let store1 = store_after(keys, store0, fetch_ok1, save_ok1, keys.len() as int);
            &&& store_after(keys, store1, fetch_ok2, save_ok2, keys.len() as int) == store1
            &&& forall|i: int|
                0 <= i < keys.len() ==> outcome_at(keys, store1, fetch_ok2, save_ok2, i)
                    == CaptureOutcome::AlreadyStored
        }),
{
    let store1 = store_after(keys, store0, fetch_ok1, save_ok1, keys.len() as int);
    lemma_schedule_completes(keys, store0, fetch_ok1, save_ok1, keys.len() as int);
    lemma_schedule_skips_stored(keys, store1, fetch_ok2, save_ok2, keys.len() as int);
}

} // verus!
