//! The search coordinator and its caller-facing types.
//!
//! `search` validates the prefix, sizes the candidate domain from the
//! feasibility estimate, splits it across workers, and runs the workers'
//! bounded loops against a caller-supplied digest oracle — the external
//! codec-and-signer that turns one candidate field value into the digest
//! of the would-be transaction. The first worker to match raises the
//! shared cancellation signal; every other worker halts at its next poll
//! without another digest computation. `DeadbeefFiller` packages a
//! validated prefix and an iteration mode and applies the winning value
//! to a draft.

use vstd::prelude::*;
use crate::estimate::{domain_spec, search_domain};
use crate::hexfmt::{
    check_prefix, digest_matches_prefix, matches_prefix, str_chars, valid_prefix,
};
use crate::partition::{
    lemma_part_exact, lemma_part_in_domain, lemma_part_step, make_partitions, part_start,
    part_width,
};
use crate::worker::WorkerState;

verus! {

/// Which draft field the search varies: the monetary value field with its
/// huge domain, or the gas-limit field with its small one.
#[derive(Clone, Copy, Debug, PartialEq, Eq, Structural)]
pub enum IterationMode {
    Value,
    Gas,
}

/// The winning scalar of a completed search, tagged with the field it
/// belongs to. Only the first reported match of a search is ever acted on.
#[derive(Clone, Copy, Debug, PartialEq, Eq, Structural)]
pub enum TxFillable {
    Value { value: u128 },
    Gas { gas: u64 },
}

/// Why a search returned no fillable.
#[derive(Clone, Copy, Debug, PartialEq, Eq, Structural)]
pub enum SearchError {
    /// The prefix is empty or holds a non-hex character; no digest was
    /// computed.
    InvalidPrefix,
    /// The digest oracle failed on some candidate; the search stopped
    /// rather than retry.
    DigestComputationFailed,
    /// Every worker consumed its whole slice without a match.
    Exhausted,
}

/// A draft transaction, reduced to the plain fields this crate reads or
/// writes. The caller keeps the full transaction; the search only ever
/// needs the current value and gas fields as numbers, and carries the
/// nonce and chain id along unchanged.
#[derive(Clone, Copy, Debug, PartialEq, Eq)]
pub struct TxDraft {
    pub value: Option<u128>,
    pub gas: Option<u64>,
    pub nonce: Option<u64>,
    pub chain_id: Option<u64>,
}

/// A successful search: the winning fillable together with the digest
/// that earned it, whose lowercase hex rendering starts with the prefix.
#[derive(Clone, Debug, PartialEq, Eq)]
pub struct SearchHit {
    pub fillable: TxFillable,
    pub digest: Vec<u8>,
}

impl TxDraft {
    /// The apply phase of the pipeline: writes the winning fillable into
    /// the draft's own field and leaves every other field unchanged. The
    /// draft need not be the one the search ran on, only field-compatible.
    pub fn apply_fillable(&self, fillable: &TxFillable) -> (r: TxDraft)
        ensures
            *fillable matches TxFillable::Value { value } ==> r == (TxDraft {
                value: Some(value),
                ..*self
            }),
            *fillable matches TxFillable::Gas { gas } ==> r == (TxDraft {
                gas: Some(gas),
                ..*self
            }),
    {
        match *fillable {
            TxFillable::Value { value } => TxDraft { value: Some(value), ..*self },
            TxFillable::Gas { gas } => TxDraft { gas: Some(gas), ..*self },
        }
    }
}

/// Prefixes of at most this many characters vary the gas field; longer
/// ones need the larger domain of the value field. An empirical default,
/// not a derived bound.
pub const GAS_MODE_MAX_PREFIX_LEN: usize = 4;

/// The mode `select_mode` picks for a prefix of `l` characters.
pub open spec fn select_mode_spec(l: nat) -> IterationMode {
    if l <= GAS_MODE_MAX_PREFIX_LEN {
        IterationMode::Gas
    } else {
        IterationMode::Value
    }
}

/// Picks which field to vary for a prefix of `prefix_length` hex
/// characters: the gas field for short prefixes, the value field past
/// `GAS_MODE_MAX_PREFIX_LEN` characters.
pub fn select_mode(prefix_length: usize) -> (m: IterationMode)
    ensures
        m == select_mode_spec(prefix_length as nat),
        m is Gas <==> prefix_length <= GAS_MODE_MAX_PREFIX_LEN,
{
    if prefix_length <= GAS_MODE_MAX_PREFIX_LEN {
        IterationMode::Gas
    } else {
        IterationMode::Value
    }
}

/// The draft's current value of the varied field, zero when unset; the
/// search adds candidate counters on top of it.
pub open spec fn search_base(mode: IterationMode, tx: TxDraft) -> u128 {
    match mode {
        IterationMode::Value => match tx.value {
            Some(v) => v,
            None => 0,
        },
        IterationMode::Gas => match tx.gas {
            Some(g) => g as u128,
            None => 0,
        },
    }
}

/// Whether `c` is a candidate field value of this search: at least the
/// draft's own field value, less than it plus the (doubled, saturated)
/// feasibility budget.
pub open spec fn in_search_domain(
    mode: IterationMode,
    tx: TxDraft,
    prefix: Seq<char>,
    c: u128,
) -> bool {
    search_base(mode, tx) <= c && (c as int) < search_base(mode, tx) as int + domain_spec(
        prefix.len(),
    ) as int
}

/// The oracle was consulted about candidate `c` and answered with a
/// digest that does not match `prefix`.
pub open spec fn tried_and_missed<F: Fn(u128) -> Option<Vec<u8>>>(
    oracle: F,
    prefix: Seq<char>,
    c: u128,
) -> bool {
    exists|d: Vec<u8>|
        #[trigger] call_ensures(oracle, (c,), Some(d)) && !matches_prefix(d@, prefix)
}

/// Two oracle answers for the same candidate carry the same digest.
pub open spec fn same_answer(r1: Option<Vec<u8>>, r2: Option<Vec<u8>>) -> bool {
    match (r1, r2) {
        (Some(d1), Some(d2)) => d1@ == d2@,
        (None, None) => true,
        _ => false,
    }
}

/// A deterministic digest oracle: any two answers it can give for the
/// same candidate agree.
pub open spec fn deterministic_oracle<F: Fn(u128) -> Option<Vec<u8>>>(oracle: F) -> bool {
    forall|c: u128, r1: Option<Vec<u8>>, r2: Option<Vec<u8>>|
        #![trigger call_ensures(oracle, (c,), r1), call_ensures(oracle, (c,), r2)]
        call_ensures(oracle, (c,), r1) && call_ensures(oracle, (c,), r2) ==> same_answer(r1, r2)
}

/// Determinism of the search: a successful search returns the lowest
/// matching candidate, so with a deterministic oracle any two runs over
/// the same draft and prefix that both succeed report the same candidate
/// and the same digest rendering. The hypotheses are exactly what
/// `search` ensures of each successful run.
pub proof fn lemma_search_deterministic<F: Fn(u128) -> Option<Vec<u8>>>(
    oracle: F,
    prefix: Seq<char>,
    base: u128,
    c1: u128,
    d1: Vec<u8>,
    c2: u128,
    d2: Vec<u8>,
)
    requires
        deterministic_oracle(oracle),
        base <= c1,
        call_ensures(oracle, (c1,), Some(d1)),
        matches_prefix(d1@, prefix),
        forall|c: u128| base <= c < c1 ==> tried_and_missed(oracle, prefix, c),
        base <= c2,
        call_ensures(oracle, (c2,), Some(d2)),
        matches_prefix(d2@, prefix),
        forall|c: u128| base <= c < c2 ==> tried_and_missed(oracle, prefix, c),
    ensures
        c1 == c2,
        d1@ == d2@,
{
    if c1 < c2 {
        assert(tried_and_missed(oracle, prefix, c1));
        let d = choose|d: Vec<u8>|
            #[trigger] call_ensures(oracle, (c1,), Some(d)) && !matches_prefix(d@, prefix);
        assert(same_answer(Some(d), Some(d1)));
        assert(false);
    }
    if c2 < c1 {
        assert(tried_and_missed(oracle, prefix, c2));
        let d = choose|d: Vec<u8>|
            #[trigger] call_ensures(oracle, (c2,), Some(d)) && !matches_prefix(d@, prefix);
        assert(same_answer(Some(d), Some(d2)));
        assert(false);
    }
    assert(same_answer(Some(d1), Some(d2)));
}

/// Runs the workers over the counter domain `[0, total)`, candidates
/// `base + counter`, in worker order; the first match cancels the rest.
fn run_search<F: Fn(u128) -> Option<Vec<u8>>>(
    base: u128,
    total: u128,
    prefix: &Vec<char>,
    workers: usize,
    oracle: F,
) -> (r: Result<(u128, Vec<u8>), SearchError>)
    requires
        workers >= 1,
        base as int + total as int <= u128::MAX as int,
        forall|c: u128| base <= c && (c as int) < base as int + total as int ==> call_requires(
            oracle,
            (c,),
        ),
    ensures
        r matches Ok(p) ==> {
            &&& base <= p.0
            &&& (p.0 as int) < base as int + total as int
            &&& call_ensures(oracle, (p.0,), Some(p.1))
            &&& matches_prefix(p.1@, prefix@)
            &&& forall|c: u128| base <= c < p.0 ==> tried_and_missed(oracle, prefix@, c)
        },
        r matches Err(e) ==> e != SearchError::InvalidPrefix,
        r matches Err(e) && e is DigestComputationFailed ==> exists|c: u128|
            base <= c && (c as int) < base as int + total as int && #[trigger] call_ensures(
                oracle,
                (c,),
                None::<Vec<u8>>,
            ),
        r matches Err(e) && e is Exhausted ==> forall|c: u128|
            base <= c && (c as int) < base as int + total as int ==> tried_and_missed(
                oracle,
                prefix@,
                c,
            ),
{
    let parts = make_partitions(total, workers);
    let mut cancelled = false;
    let mut winner: Option<(u128, Vec<u8>)> = None;
    let mut i: usize = 0;
    while i < workers
        invariant
            workers >= 1,
            base as int + total as int <= u128::MAX as int,
            forall|c: u128| base <= c && (c as int) < base as int + total as int
                ==> call_requires(oracle, (c,)),
            parts@.len() == workers,
            forall|j: int|
                0 <= j < workers ==> (#[trigger] parts@[j]).start == part_start(
                    total,
                    workers as int,
                    j,
                ) && parts@[j].width == part_width(total, workers as int, j),
            i <= workers,
            cancelled <==> winner is Some,
            winner matches Some(p) ==> base <= p.0 && (p.0 as int) < base as int + total as int
                && call_ensures(oracle, (p.0,), Some(p.1)) && matches_prefix(p.1@, prefix@)
                && forall|c: u128| base <= c < p.0 ==> tried_and_missed(oracle, prefix@, c),
            !cancelled ==> forall|c: u128|
                base <= c && (c as int) < base as int + part_start(total, workers as int, i as int)
                    ==> tried_and_missed(oracle, prefix@, c),
        decreases workers - i,
    {
        proof {
            lemma_part_in_domain(total, workers as int, i as int);
        }
        let p = parts[i];
        let mut w = WorkerState::new(p.start, p.width);
        let mut done = false;
        while !done
            invariant
                base as int + total as int <= u128::MAX as int,
                forall|c: u128| base <= c && (c as int) < base as int + total as int
                    ==> call_requires(oracle, (c,)),
                i < workers,
                w.wf(),
                w.start == part_start(total, workers as int, i as int),
                w.width == part_width(total, workers as int, i as int),
                w.start as int + w.width as int <= total as int,
                !done ==> !w.halted,
                done && !cancelled ==> w.exhausted(),
                cancelled <==> winner is Some,
                winner matches Some(p) ==> base <= p.0 && (p.0 as int) < base as int
                    + total as int && call_ensures(oracle, (p.0,), Some(p.1)) && matches_prefix(
                    p.1@,
                    prefix@,
                ) && forall|c: u128| base <= c < p.0 ==> tried_and_missed(oracle, prefix@, c),
                !cancelled ==> forall|c: u128|
                    base <= c && (c as int) < base as int + w.next as int ==> tried_and_missed(
                        oracle,
                        prefix@,
                        c,
                    ),
            decreases (w.end() - w.next) + if done { 0int } else { 1int },
        {
            let req = w.poll(cancelled);
            match req {
                None => {
                    done = true;
                },
                Some(k) => {
                    let candidate = base + k;
                    match oracle(candidate) {
                        None => {
                            proof {
                                assert(call_ensures(oracle, (candidate,), None::<Vec<u8>>));
                            }
                            return Err(SearchError::DigestComputationFailed);
                        },
                        Some(d) => {
                            let m = digest_matches_prefix(&d, prefix);
                            if m {
                                w.record(true);
                                winner = Some((candidate, d));
                                cancelled = true;
                                done = true;
                            } else {
                                proof {
                                    assert(call_ensures(oracle, (candidate,), Some(d)));
                                    assert(tried_and_missed(oracle, prefix@, candidate));
                                }
                                w.record(false);
                            }
                        },
                    }
                },
            }
        }
        proof {
            lemma_part_step(total, workers as int, i as int);
        }
        i = i + 1;
    }
    proof {
        lemma_part_exact(total, workers as int);
    }
    match winner {
        Some(pr) => Ok(pr),
        None => Err(SearchError::Exhausted),
    }
}

/// The search coordinator: validates the prefix, sizes the domain from
/// the feasibility estimate, partitions it across `worker_count` workers,
/// and races them against the digest oracle. Fails only on an invalid
/// prefix (before any digest computation), an oracle failure, or an
/// exhausted domain; a success carries the lowest matching candidate, as
/// the field value to fill, and its digest.
pub fn search<F: Fn(u128) -> Option<Vec<u8>>>(
    tx: &TxDraft,
    prefix: &str,
    mode: IterationMode,
    worker_count: usize,
    oracle: F,
) -> (r: Result<SearchHit, SearchError>)
    requires
        worker_count >= 1,
        valid_prefix(prefix@) ==> prefix@.len() <= u32::MAX,
        valid_prefix(prefix@) && mode is Value ==> search_base(mode, *tx) as int + domain_spec(
            prefix@.len(),
        ) as int <= u128::MAX as int,
        valid_prefix(prefix@) && mode is Gas ==> search_base(mode, *tx) as int + domain_spec(
            prefix@.len(),
        ) as int <= u64::MAX as int,
        forall|c: u128| in_search_domain(mode, *tx, prefix@, c) ==> call_requires(oracle, (c,)),
    ensures
        r matches Err(e) && e is InvalidPrefix <==> !valid_prefix(prefix@),
        r matches Ok(hit) ==> {
            &&& matches_prefix(hit.digest@, prefix@)
            &&& (hit.fillable is Value <==> mode is Value)
            &&& hit.fillable matches TxFillable::Value { value } ==> {
                &&& in_search_domain(mode, *tx, prefix@, value)
                &&& call_ensures(oracle, (value,), Some(hit.digest))
                &&& forall|c: u128| search_base(mode, *tx) <= c < value ==> tried_and_missed(
                    oracle,
                    prefix@,
                    c,
                )
            }
            &&& hit.fillable matches TxFillable::Gas { gas } ==> {
                &&& in_search_domain(mode, *tx, prefix@, gas as u128)
                &&& call_ensures(oracle, (gas as u128,), Some(hit.digest))
                &&& forall|c: u128| search_base(mode, *tx) <= c < gas as u128 ==> tried_and_missed(
                    oracle,
                    prefix@,
                    c,
                )
            }
        },
        r matches Err(e) && e is DigestComputationFailed ==> exists|c: u128|
            in_search_domain(mode, *tx, prefix@, c) && #[trigger] call_ensures(
                oracle,
                (c,),
                None::<Vec<u8>>,
            ),
        r matches Err(e) && e is Exhausted ==> forall|c: u128|
            in_search_domain(mode, *tx, prefix@, c) ==> tried_and_missed(oracle, prefix@, c),
{
    if !check_prefix(prefix) {
        return Err(SearchError::InvalidPrefix);
    }
    let prefix_vec = str_chars(prefix);
    let l = prefix_vec.len();
    let total = search_domain(l as u32);
    let base = match mode {
        IterationMode::Value => match tx.value {
            Some(v) => v,
            None => 0,
        },
        IterationMode::Gas => (match tx.gas {
            Some(g) => g,
            None => 0,
        }) as u128,
    };
    proof {
        assert(total == domain_spec(prefix@.len()));
        assert(base == search_base(mode, *tx));
        assert forall|c: u128| base <= c && (c as int) < base as int + total as int implies
            call_requires(oracle, (c,)) by {
            assert(in_search_domain(mode, *tx, prefix@, c));
        }
    }
    match run_search(base, total, &prefix_vec, worker_count, oracle) {
        Ok((c, d)) => {
            let fillable = match mode {
                IterationMode::Value => TxFillable::Value { value: c },
                IterationMode::Gas => TxFillable::Gas { gas: c as u64 },
            };
            Ok(SearchHit { fillable, digest: d })
        },
        Err(e) => Err(e),
    }
}

} // verus!
