//! End-to-end tests of the mining library against deterministic stub
//! digest oracles: a stub stands in for the external codec-and-signer
//! and returns a fixed digest for chosen candidates.

use std::cell::Cell;

use deadbeef::hexfmt::{check_prefix, digest_matches_prefix, render_hex, str_chars};
use deadbeef::partition::make_partitions;
use deadbeef::worker::WorkerState;
use deadbeef::{
    max_iterations_for_prefix, search, search_domain, select_mode, DeadbeefFiller, IterationMode,
    SearchError, TxDraft, TxFillable,
};

const TX_PREFIX: &str = "de";

fn draft(value: u128, gas: u64) -> TxDraft {
    TxDraft {
        value: Some(value),
        gas: Some(gas),
        nonce: Some(0),
        chain_id: Some(31337),
    }
}

/// A 32-byte digest whose lowercase hex rendering starts with "de".
fn de_digest() -> Vec<u8> {
    let mut d = vec![0u8; 32];
    d[0] = 0xde;
    d[1] = 0xad;
    d
}

/// A 32-byte digest whose rendering starts with "deadbeef".
fn deadbeef_digest() -> Vec<u8> {
    let mut d = vec![0u8; 32];
    d[0] = 0xde;
    d[1] = 0xad;
    d[2] = 0xbe;
    d[3] = 0xef;
    d
}

/// A digest that matches no test prefix.
fn dull_digest() -> Vec<u8> {
    vec![0x11; 32]
}

fn to_hex(d: &[u8]) -> String {
    d.iter().map(|b| format!("{:02x}", b)).collect()
}

#[test]
fn test_prefixed_tx_by_value() {
    let mut deadbeef = DeadbeefFiller::new(TX_PREFIX.to_string()).unwrap();
    deadbeef.set_iteration_mode(IterationMode::Value);

    let tx = draft(100, 210000);
    let oracle = |c: u128| {
        if c == 100 + 110 {
            Some(de_digest())
        } else {
            Some(dull_digest())
        }
    };

    let out = deadbeef.prefixed_tx(&tx, 4, oracle).unwrap();
    assert_eq!(out.value, Some(210));
    assert_eq!(out.gas, Some(210000));

    let hit = search(&tx, TX_PREFIX, IterationMode::Value, 4, oracle).unwrap();
    let tx_hash = format!("{:x}", 0xdead_u32);
    assert_eq!(&to_hex(&hit.digest)[..4], tx_hash.as_str());
    assert!(to_hex(&hit.digest).starts_with(TX_PREFIX));
}

#[test]
fn test_prefixed_tx_by_gas() {
    let mut deadbeef = DeadbeefFiller::new(TX_PREFIX.to_string()).unwrap();
    deadbeef.set_iteration_mode(IterationMode::Gas);

    let tx = draft(100, 210000);
    let oracle = |c: u128| {
        if c == 210000 + 110 {
            Some(de_digest())
        } else {
            Some(dull_digest())
        }
    };

    let out = deadbeef.prefixed_tx(&tx, 4, oracle).unwrap();
    assert_eq!(out.gas, Some(210110));
    assert_eq!(out.value, Some(100));

    let hit = search(&tx, TX_PREFIX, IterationMode::Gas, 4, oracle).unwrap();
    assert!(to_hex(&hit.digest).starts_with(TX_PREFIX));
}

/// A successful search's digest, rendered as lowercase hex, starts with
/// the prefix.
#[test]
fn found_digest_starts_with_prefix() {
    let tx = draft(0, 0);
    let oracle = |c: u128| {
        if c == 7 {
            Some(de_digest())
        } else {
            Some(dull_digest())
        }
    };
    let hit = search(&tx, "de", IterationMode::Value, 3, oracle).unwrap();
    assert_eq!(hit.fillable, TxFillable::Value { value: 7 });
    let hex = to_hex(&hit.digest);
    assert!(hex.starts_with("de"));
    assert_eq!(hex.len(), 64);
}

/// Invalid prefixes are rejected before any digest computation.
#[test]
fn invalid_prefix_rejected_without_work() {
    let tx = draft(0, 0);
    for bad in ["", "g", "0x", "0xde", "dead beef", "d!"] {
        let calls = Cell::new(0u64);
        let oracle = |_c: u128| {
            calls.set(calls.get() + 1);
            Some(dull_digest())
        };
        let r = search(&tx, bad, IterationMode::Value, 2, oracle);
        assert_eq!(r.unwrap_err(), SearchError::InvalidPrefix);
        assert_eq!(calls.get(), 0);
    }
}

#[test]
fn new_rejects_empty_prefix() {
    let e = DeadbeefFiller::new(String::new()).unwrap_err();
    assert_eq!(e, "Prefix cannot be empty");
}

#[test]
fn new_rejects_non_hex_prefix() {
    let e = DeadbeefFiller::new("0xde".to_string()).unwrap_err();
    assert_eq!(e, "Prefix contains non-hexadecimal characters");
    let e = DeadbeefFiller::new("g".to_string()).unwrap_err();
    assert_eq!(e, "Prefix contains non-hexadecimal characters");
}

#[test]
fn new_accepts_hex_prefixes() {
    assert!(DeadbeefFiller::new("0".to_string()).is_ok());
    assert!(DeadbeefFiller::new("DEadBEef".to_string()).is_ok());
    assert!(DeadbeefFiller::new("0123456789abcdefABCDEF".to_string()).is_ok());
}

/// Determinism: with a deterministic oracle, re-running the same search
/// gives the same candidate, and it is the lowest matching one.
#[test]
fn search_is_deterministic() {
    let tx = draft(1000, 0);
    // Two matching candidates; the search must settle on the lower.
    let oracle = |c: u128| {
        if c == 1050 || c == 1060 {
            Some(de_digest())
        } else {
            Some(dull_digest())
        }
    };
    let first = search(&tx, "de", IterationMode::Value, 4, oracle).unwrap();
    let second = search(&tx, "de", IterationMode::Value, 4, oracle).unwrap();
    assert_eq!(first.fillable, second.fillable);
    assert_eq!(first.digest, second.digest);
    assert_eq!(first.fillable, TxFillable::Value { value: 1050 });
}

/// Partition coverage: the worker slices exactly tile `[0, total)`.
#[test]
fn partitions_tile_the_domain() {
    for (total, workers) in [(2358u128, 4usize), (10, 3), (148, 5), (0, 2), (3, 7), (1, 1)] {
        let parts = make_partitions(total, workers);
        assert_eq!(parts.len(), workers);
        let mut expected_start = 0u128;
        let base_width = total / workers as u128;
        for (i, p) in parts.iter().enumerate() {
            assert_eq!(p.start, expected_start);
            // Equal width up to rounding.
            assert!(p.width == base_width || p.width == base_width + 1);
            if (i as u128) < total % workers as u128 {
                assert_eq!(p.width, base_width + 1);
            } else {
                assert_eq!(p.width, base_width);
            }
            expected_start += p.width;
        }
        // No gap, no overlap, nothing past the end.
        assert_eq!(expected_start, total);
    }
}

/// Cancellation propagation: after a match, the remaining workers are
/// cancelled and compute nothing further — the winning worker's single
/// digest is the only call here.
#[test]
fn cancellation_stops_other_workers() {
    let tx = draft(0, 0);
    let calls = Cell::new(0u64);
    let oracle = |c: u128| {
        calls.set(calls.get() + 1);
        if c == 0 {
            Some(de_digest())
        } else {
            Some(dull_digest())
        }
    };
    let hit = search(&tx, "de", IterationMode::Value, 8, oracle).unwrap();
    assert_eq!(hit.fillable, TxFillable::Value { value: 0 });
    assert_eq!(calls.get(), 1);
}

/// Cancellation at the worker state machine: a worker polled with the
/// signal set halts without requesting a digest, wherever it stood.
#[test]
fn cancelled_worker_requests_nothing() {
    let mut w = WorkerState::new(10, 5);
    assert_eq!(w.poll(false), Some(10));
    w.record(false);
    assert_eq!(w.poll(false), Some(11));
    // The signal goes up mid-slice: no further request, position frozen.
    assert_eq!(w.poll(true), None);
    assert_eq!(w.next, 11);
    assert!(w.halted);
    // Halted is for good, even with the signal back down.
    assert_eq!(w.poll(false), None);
    assert_eq!(w.next, 11);
}

/// A worker that walks its whole slice without a match halts on its own.
#[test]
fn worker_exhausts_its_slice() {
    let mut w = WorkerState::new(3, 2);
    assert_eq!(w.poll(false), Some(3));
    w.record(false);
    assert_eq!(w.poll(false), Some(4));
    w.record(false);
    assert_eq!(w.poll(false), None);
    assert!(w.halted);
}

/// Mode selection: gas for prefix lengths 1 to 4, value from 5 on.
#[test]
fn mode_selection_threshold() {
    for l in [1usize, 2, 3, 4] {
        assert_eq!(select_mode(l), IterationMode::Gas);
    }
    for l in [5usize, 6, 8, 16, 64] {
        assert_eq!(select_mode(l), IterationMode::Value);
    }
}

/// The iteration budget `ceil(4.605 * 16^l)` at exact points, and its
/// saturation for prefixes too long to budget.
#[test]
fn budget_values() {
    assert_eq!(max_iterations_for_prefix(0), 5);
    assert_eq!(max_iterations_for_prefix(1), 74);
    assert_eq!(max_iterations_for_prefix(2), 1179);
    assert_eq!(max_iterations_for_prefix(3), 18863);
    assert_eq!(max_iterations_for_prefix(4), 301794);
    assert_eq!(max_iterations_for_prefix(8), 19778324399);
    assert_eq!(
        max_iterations_for_prefix(31),
        97937518729432601515552504201455788360
    );
    assert_eq!(max_iterations_for_prefix(32), u128::MAX);
    assert_eq!(max_iterations_for_prefix(40), u128::MAX);
    assert_eq!(search_domain(1), 148);
    assert_eq!(search_domain(2), 2358);
    assert_eq!(search_domain(32), u128::MAX);
}

/// End-to-end: prefix "de" defaults to gas iteration; a stub that
/// matches exactly when the gas field reaches the draft's own gas plus
/// 777 makes the search return that gas value.
#[test]
fn gas_scenario_finds_offset_777() {
    let deadbeef = DeadbeefFiller::new("de".to_string()).unwrap();
    let tx = draft(100, 210000);
    // Budget for two hex characters, and the doubled domain around it.
    assert_eq!(max_iterations_for_prefix(2), 1179);
    assert_eq!(search_domain(2), 2 * 1179);
    let oracle = |c: u128| {
        if c == 210000 + 777 {
            Some(de_digest())
        } else {
            Some(dull_digest())
        }
    };
    let fillable = deadbeef.prefixed_tx_fillable(&tx, 4, oracle).unwrap();
    assert_eq!(fillable, TxFillable::Gas { gas: 210777 });
}

/// End-to-end: prefix "deadbeef" selects value iteration; a stub that
/// matches only at counter 500000 makes the search return the draft's
/// value plus 500000.
#[test]
fn value_scenario_finds_counter_500000() {
    let deadbeef = DeadbeefFiller::new("deadbeef".to_string()).unwrap();
    let tx = draft(100, 210000);
    let oracle = |c: u128| {
        if c == 100 + 500000 {
            Some(deadbeef_digest())
        } else {
            Some(dull_digest())
        }
    };
    let fillable = deadbeef.prefixed_tx_fillable(&tx, 2, oracle).unwrap();
    assert_eq!(fillable, TxFillable::Value { value: 500100 });
}

/// An oracle failure surfaces as `DigestComputationFailed`.
#[test]
fn oracle_failure_propagates() {
    let tx = draft(0, 0);
    let oracle = |c: u128| {
        if c == 5 {
            None
        } else {
            Some(dull_digest())
        }
    };
    let r = search(&tx, "de", IterationMode::Value, 1, oracle);
    assert_eq!(r.unwrap_err(), SearchError::DigestComputationFailed);
}

/// A search that consumes the whole domain without a match reports
/// exhaustion, after exactly one digest per candidate.
#[test]
fn exhausted_after_whole_domain() {
    let tx = draft(0, 0);
    for workers in [1usize, 5] {
        let calls = Cell::new(0u64);
        let oracle = |_c: u128| {
            calls.set(calls.get() + 1);
            Some(dull_digest())
        };
        let r = search(&tx, "f", IterationMode::Gas, workers, oracle);
        assert_eq!(r.unwrap_err(), SearchError::Exhausted);
        // Domain for one hex character: 2 * 74 candidates.
        assert_eq!(calls.get(), 148);
    }
}

/// More workers than candidates still tiles the domain and finds a match.
#[test]
fn more_workers_than_candidates() {
    let tx = draft(0, 0);
    let oracle = |c: u128| {
        if c == 77 {
            Some(de_digest())
        } else {
            Some(dull_digest())
        }
    };
    let hit = search(&tx, "de", IterationMode::Gas, 1000, oracle).unwrap();
    assert_eq!(hit.fillable, TxFillable::Gas { gas: 77 });
}

/// The apply phase writes exactly the tagged field and preserves the rest.
#[test]
fn apply_fillable_sets_one_field() {
    let tx = draft(7, 100);
    let by_value = tx.apply_fillable(&TxFillable::Value { value: 999 });
    assert_eq!(by_value.value, Some(999));
    assert_eq!(by_value.gas, Some(100));
    assert_eq!(by_value.nonce, Some(0));
    assert_eq!(by_value.chain_id, Some(31337));
    let by_gas = tx.apply_fillable(&TxFillable::Gas { gas: 777 });
    assert_eq!(by_gas.gas, Some(777));
    assert_eq!(by_gas.value, Some(7));
}

/// A draft with unset fields searches from zero.
#[test]
fn unset_fields_default_to_zero() {
    let tx = TxDraft {
        value: None,
        gas: None,
        nonce: None,
        chain_id: None,
    };
    let oracle = |c: u128| {
        if c == 3 {
            Some(de_digest())
        } else {
            Some(dull_digest())
        }
    };
    let hit = search(&tx, "de", IterationMode::Gas, 2, oracle).unwrap();
    assert_eq!(hit.fillable, TxFillable::Gas { gas: 3 });
}

/// The hex rendering helpers agree with an independent rendering.
#[test]
fn hex_rendering_and_matching() {
    let d = vec![0xde, 0xad, 0xbe, 0xef, 0x00, 0x1a];
    let rendered: String = render_hex(&d).into_iter().collect();
    assert_eq!(rendered, "deadbeef001a");
    assert!(digest_matches_prefix(&d, &str_chars("deadbeef")));
    assert!(digest_matches_prefix(&d, &str_chars("d")));
    assert!(!digest_matches_prefix(&d, &str_chars("dead0")));
    // Prefix longer than the rendering cannot match.
    assert!(!digest_matches_prefix(&d, &str_chars("deadbeef001a00")));
    // Comparison is against the lowercase rendering: uppercase never matches.
    assert!(!digest_matches_prefix(&d, &str_chars("DE")));
    assert!(check_prefix("DE"));
    assert!(!check_prefix(""));
    assert!(!check_prefix("xy"));
}
