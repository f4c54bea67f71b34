//! The pipeline adapter: a validated prefix and an iteration mode,
//! packaged so an external transaction-preparation pipeline can run the
//! search as one stage (produce a fillable) and apply its result as
//! another (write the fillable into the outgoing draft).

use vstd::prelude::*;
use crate::estimate::domain_spec;
use crate::hexfmt::{check_prefix, matches_prefix, valid_prefix};
use crate::search::{
    in_search_domain, search, search_base, select_mode, select_mode_spec, tried_and_missed,
    IterationMode, SearchError, TxDraft, TxFillable,
};

verus! {

/// A prefix-mining stage: holds the target prefix, validated at
/// construction, and the field the search varies — chosen from the
/// prefix length by default, overridable afterwards.
#[derive(Clone, Debug)]
pub struct DeadbeefFiller {
    prefix: String,
    iteration_mode: IterationMode,
}

impl DeadbeefFiller {
    /// The filler's target prefix.
    pub closed spec fn spec_prefix(&self) -> Seq<char> {
        self.prefix@
    }

    /// The field the filler's searches vary.
    pub closed spec fn spec_mode(&self) -> IterationMode {
        self.iteration_mode
    }

    /// Validates the prefix — non-empty, hex characters only — and picks
    /// the default iteration mode from its length. No search work happens
    /// here or before the first search call.
    pub fn new(prefix: String) -> (r: Result<DeadbeefFiller, &'static str>)
        ensures
            r is Ok <==> valid_prefix(prefix@),
            r matches Ok(f) ==> f.spec_prefix() == prefix@ && f.spec_mode() == select_mode_spec(
                prefix@.len(),
            ),
            prefix@.len() == 0 ==> (r matches Err(e) && e@ == "Prefix cannot be empty"@),
            prefix@.len() > 0 && !valid_prefix(prefix@) ==> (r matches Err(e) && e@
                == "Prefix contains non-hexadecimal characters"@),
    {
        if prefix.as_str().unicode_len() == 0 {
            return Err("Prefix cannot be empty");
        }
        if !check_prefix(prefix.as_str()) {
            return Err("Prefix contains non-hexadecimal characters");
        }
        let l = prefix.as_str().unicode_len();
        let iteration_mode = select_mode(l);
        Ok(DeadbeefFiller { prefix, iteration_mode })
    }

    /// Overrides which field the search varies.
    pub fn set_iteration_mode(&mut self, mode: IterationMode)
        ensures
            final(self).spec_mode() == mode,
            final(self).spec_prefix() == old(self).spec_prefix(),
    {
        self.iteration_mode = mode;
    }

    /// The prepare phase: runs the full search for this filler's prefix
    /// and mode over `worker_count` workers and returns the winning
    /// fillable, without touching the draft.
    pub fn prefixed_tx_fillable<F: Fn(u128) -> Option<Vec<u8>>>(
        &self,
        tx: &TxDraft,
        worker_count: usize,
        oracle: F,
    ) -> (r: Result<TxFillable, SearchError>)
        requires
            worker_count >= 1,
            valid_prefix(self.spec_prefix()) ==> self.spec_prefix().len() <= u32::MAX,
            valid_prefix(self.spec_prefix()) && self.spec_mode() is Value ==> search_base(
                self.spec_mode(),
                *tx,
            ) as int + domain_spec(self.spec_prefix().len()) as int <= u128::MAX as int,
            valid_prefix(self.spec_prefix()) && self.spec_mode() is Gas ==> search_base(
                self.spec_mode(),
                *tx,
            ) as int + domain_spec(self.spec_prefix().len()) as int <= u64::MAX as int,
            forall|c: u128|
                in_search_domain(self.spec_mode(), *tx, self.spec_prefix(), c) ==> call_requires(
                    oracle,
                    (c,),
                ),
        ensures
            r matches Err(e) && e is InvalidPrefix <==> !valid_prefix(self.spec_prefix()),
            r matches Ok(f) ==> {
                &&& (f is Value <==> self.spec_mode() is Value)
                &&& f matches TxFillable::Value { value } ==> {
                    &&& in_search_domain(self.spec_mode(), *tx, self.spec_prefix(), value)
                    &&& exists|d: Vec<u8>|
                        #[trigger] call_ensures(oracle, (value,), Some(d)) && matches_prefix(
                            d@,
                            self.spec_prefix(),
                        )
                    &&& forall|c: u128|
                        search_base(self.spec_mode(), *tx) <= c < value ==> tried_and_missed(
                            oracle,
                            self.spec_prefix(),
                            c,
                        )
                }
                &&& f matches TxFillable::Gas { gas } ==> {
                    &&& in_search_domain(self.spec_mode(), *tx, self.spec_prefix(), gas as u128)
                    &&& exists|d: Vec<u8>|
                        #[trigger] call_ensures(oracle, (gas as u128,), Some(d)) && matches_prefix(
                            d@,
                            self.spec_prefix(),
                        )
                    &&& forall|c: u128|
                        search_base(self.spec_mode(), *tx) <= c < gas as u128 ==> tried_and_missed(
                            oracle,
                            self.spec_prefix(),
                            c,
                        )
                }
            },
            r matches Err(e) && e is DigestComputationFailed ==> exists|c: u128|
                in_search_domain(self.spec_mode(), *tx, self.spec_prefix(), c)
                    && #[trigger] call_ensures(oracle, (c,), None::<Vec<u8>>),
            r matches Err(e) && e is Exhausted ==> forall|c: u128|
                in_search_domain(self.spec_mode(), *tx, self.spec_prefix(), c)
                    ==> tried_and_missed(oracle, self.spec_prefix(), c),
    {
        match search(tx, self.prefix.as_str(), self.iteration_mode, worker_count, oracle) {
            Ok(hit) => Ok(hit.fillable),
            Err(e) => Err(e),
        }
    }

    /// Search and apply in one call: returns the caller's draft with the
    /// winning value written into the varied field and every other field
    /// unchanged.
    pub fn prefixed_tx<F: Fn(u128) -> Option<Vec<u8>>>(
        &self,
        tx: &TxDraft,
        worker_count: usize,
        oracle: F,
    ) -> (r: Result<TxDraft, SearchError>)
        requires
            worker_count >= 1,
            valid_prefix(self.spec_prefix()) ==> self.spec_prefix().len() <= u32::MAX,
            valid_prefix(self.spec_prefix()) && self.spec_mode() is Value ==> search_base(
                self.spec_mode(),
                *tx,
            ) as int + domain_spec(self.spec_prefix().len()) as int <= u128::MAX as int,
            valid_prefix(self.spec_prefix()) && self.spec_mode() is Gas ==> search_base(
                self.spec_mode(),
                *tx,
            ) as int + domain_spec(self.spec_prefix().len()) as int <= u64::MAX as int,
            forall|c: u128|
                in_search_domain(self.spec_mode(), *tx, self.spec_prefix(), c) ==> call_requires(
                    oracle,
                    (c,),
                ),
        ensures
            r matches Err(e) && e is InvalidPrefix <==> !valid_prefix(self.spec_prefix()),
            r matches Ok(out) ==> {
                &&& self.spec_mode() is Value ==> {
                    &&& out.gas == tx.gas
                    &&& out.nonce == tx.nonce
                    &&& out.chain_id == tx.chain_id
                    &&& out.value matches Some(v) && in_search_domain(
                        self.spec_mode(),
                        *tx,
                        self.spec_prefix(),
                        v,
                    ) && exists|d: Vec<u8>|
                        #[trigger] call_ensures(oracle, (v,), Some(d)) && matches_prefix(
                            d@,
                            self.spec_prefix(),
                        )
                }
                &&& self.spec_mode() is Gas ==> {
                    &&& out.value == tx.value
                    &&& out.nonce == tx.nonce
                    &&& out.chain_id == tx.chain_id
                    &&& out.gas matches Some(g) && in_search_domain(
                        self.spec_mode(),
                        *tx,
                        self.spec_prefix(),
                        g as u128,
                    ) && exists|d: Vec<u8>|
                        #[trigger] call_ensures(oracle, (g as u128,), Some(d)) && matches_prefix(
                            d@,
                            self.spec_prefix(),
                        )
                }
            },
            r matches Err(e) && e is DigestComputationFailed ==> exists|c: u128|
                in_search_domain(self.spec_mode(), *tx, self.spec_prefix(), c)
                    && #[trigger] call_ensures(oracle, (c,), None::<Vec<u8>>),
            r matches Err(e) && e is Exhausted ==> forall|c: u128|
                in_search_domain(self.spec_mode(), *tx, self.spec_prefix(), c)
                    ==> tried_and_missed(oracle, self.spec_prefix(), c),
    {
        match self.prefixed_tx_fillable(tx, worker_count, oracle) {
            Ok(fillable) => Ok(tx.apply_fillable(&fillable)),
            Err(e) => Err(e),
        }
    }
}

} // verus!
