//! Oracle membership and runtime parameters, and the changes that an
//! approved proposal applies to them.

use vstd::prelude::*;
use crate::address::Address;
use crate::oracle::errors::OracleError;
use crate::oracle::payload::{
    decode_oracle_address, decode_parameter, oracle_address_of, parameter_of,
};
use crate::oracle::proposal::{ProposalType, MIN_ORACLES};

verus! {

/// Parameter key that selects the minimum oracle count.
pub const PARAM_MIN_ORACLES: u64 = 0;

/// Parameter key that selects the price time-to-live in seconds.
pub const PARAM_PRICE_TTL: u64 = 1;

/// Parameter key that selects the largest tolerated deviation in basis points.
pub const PARAM_MAX_DEVIATION_BPS: u64 = 2;

/// Track record of one oracle source.
#[derive(Clone, Copy, Debug, PartialEq, Eq, Structural)]
pub struct OracleReputation {
    pub total_submissions: u32,
    pub accurate_submissions: u32,
    pub avg_deviation: i128,
    pub reputation_score: u32,
    pub weight: u32,
    pub last_slash: u64,
}

/// The reputation record of one oracle.
#[derive(Clone, Copy, Debug)]
pub struct OracleRecord {
    pub oracle: Address,
    pub reputation: OracleReputation,
}

/// The reputation that a newly added oracle starts with.
pub open spec fn initial_reputation() -> OracleReputation {
    OracleReputation {
        total_submissions: 0,
        accurate_submissions: 0,
        avg_deviation: 0,
        reputation_score: 50,
        weight: 1,
        last_slash: 0,
    }
}

/// Some record in `records` belongs to `oracle`.
pub open spec fn has_record(records: Seq<OracleRecord>, oracle: Address) -> bool {
    exists|i: int| 0 <= i < records.len() && (#[trigger] records[i]).oracle == oracle
}

/// Position of a record of `oracle` in `records`, where there is one.
pub open spec fn record_index(records: Seq<OracleRecord>, oracle: Address) -> int {
    choose|i: int| 0 <= i < records.len() && (#[trigger] records[i]).oracle == oracle
}

/// No oracle has two records.
pub open spec fn unique_records(records: Seq<OracleRecord>) -> bool {
    forall|i: int, j: int|
        0 <= i < records.len() && 0 <= j < records.len() && i != j ==> (
        #[trigger] records[i]).oracle != (#[trigger] records[j]).oracle
}

/// The records in which `oracle` has the initial reputation and every other
/// oracle has the record it had.
pub open spec fn with_initial_record(records: Seq<OracleRecord>, oracle: Address) -> Seq<
    OracleRecord,
> {
    let fresh = OracleRecord { oracle, reputation: initial_reputation() };
    if has_record(records, oracle) {
        records.update(record_index(records, oracle), fresh)
    } else {
        records.push(fresh)
    }
}

/// Position of `oracle` in the membership list, where it is a member.
pub open spec fn member_index(oracles: Seq<Address>, oracle: Address) -> int {
    choose|i: int| 0 <= i < oracles.len() && oracles[i] == oracle
}

/// The membership list without `oracle`; the others keep their order.
pub open spec fn without_member(oracles: Seq<Address>, oracle: Address) -> Seq<Address> {
    if oracles.contains(oracle) {
        oracles.remove(member_index(oracles, oracle))
    } else {
        oracles
    }
}

/// What the oracle service is configured with, as plain mathematical data.
pub struct ConfigState {
    pub oracles: Seq<Address>,
    pub records: Seq<OracleRecord>,
    pub min_oracles: Option<u32>,
    pub price_ttl: Option<u64>,
    pub max_deviation_bps: Option<i128>,
    pub paused: bool,
}

impl ConfigState {
    /// The configuration without oracles, records or parameters, not paused.
    pub open spec fn empty() -> ConfigState {
        ConfigState {
            oracles: Seq::empty(),
            records: Seq::empty(),
            min_oracles: None,
            price_ttl: None,
            max_deviation_bps: None,
            paused: false,
        }
    }

    /// No oracle is listed twice and none has two records.
    pub open spec fn wf(self) -> bool {
        self.oracles.no_duplicates() && unique_records(self.records)
    }

    /// Adding the oracle that `payload` names: refused when the payload is
    /// malformed or the oracle is already a member; otherwise the oracle
    /// joins the end of the list with the initial reputation.
    pub open spec fn add_oracle(self, payload: Seq<u8>) -> Result<ConfigState, OracleError> {
        match oracle_address_of(payload) {
            Err(e) => Err(e),
            Ok(oracle) => if self.oracles.contains(oracle) {
                Err(OracleError::OracleAlreadyExists)
            } else {
                Ok(
                    ConfigState {
                        oracles: self.oracles.push(oracle),
                        records: with_initial_record(self.records, oracle),
                        ..self
                    },
                )
            },
        }
    }

    /// Removing the oracle that `payload` names: refused when the payload is
    /// malformed or when no more than `MIN_ORACLES` are listed; otherwise
    /// the oracle leaves the list.
    pub open spec fn remove_oracle(self, payload: Seq<u8>) -> Result<ConfigState, OracleError> {
        match oracle_address_of(payload) {
            Err(e) => Err(e),
            Ok(oracle) => if self.oracles.len() <= MIN_ORACLES {
                Err(OracleError::InsufficientOracles)
            } else {
                Ok(ConfigState { oracles: without_member(self.oracles, oracle), ..self })
            },
        }
    }

    /// Updating the parameter that `payload` names: refused when the payload
    /// is malformed or the key is unknown; otherwise the parameter takes the
    /// value, cut to the parameter's width.
    pub open spec fn update_parameter(self, payload: Seq<u8>) -> Result<ConfigState, OracleError> {
        match parameter_of(payload) {
            Err(e) => Err(e),
            Ok((key, value)) => if key == PARAM_MIN_ORACLES {
                Ok(ConfigState { min_oracles: Some(value as u32), ..self })
            } else if key == PARAM_PRICE_TTL {
                Ok(ConfigState { price_ttl: Some(value as u64), ..self })
            } else if key == PARAM_MAX_DEVIATION_BPS {
                Ok(ConfigState { max_deviation_bps: Some(value), ..self })
            } else {
                Err(OracleError::InvalidPrice)
            },
        }
    }

    /// Pausing: always succeeds and sets the paused flag.
    pub open spec fn emergency_pause(self) -> Result<ConfigState, OracleError> {
        Ok(ConfigState { paused: true, ..self })
    }

    /// The change that a proposal of `kind` with `payload` asks for.
    pub open spec fn apply(self, kind: ProposalType, payload: Seq<u8>) -> Result<
        ConfigState,
        OracleError,
    > {
        match kind {
            ProposalType::AddOracle => self.add_oracle(payload),
            ProposalType::RemoveOracle => self.remove_oracle(payload),
            ProposalType::UpdateParameter => self.update_parameter(payload),
            ProposalType::EmergencyPause => self.emergency_pause(),
        }
    }
}

/// Whatever change is applied, the configuration stays well formed.
pub proof fn lemma_apply_wf(config: ConfigState, kind: ProposalType, payload: Seq<u8>)
    requires
        config.wf(),
    ensures
        config.apply(kind, payload) matches Ok(next) ==> next.wf(),
{
    match config.apply(kind, payload) {
        Ok(next) => {
            match kind {
                ProposalType::AddOracle => {
                    let oracle = oracle_address_of(payload)->Ok_0;
                    lemma_with_initial_record(config.records, oracle);
                    assert forall|i: int, j: int|
                        0 <= i < next.oracles.len() && 0 <= j < next.oracles.len() && i
                            != j implies next.oracles[i] != next.oracles[j] by {
                        if i < config.oracles.len() {
                            assert(config.oracles.contains(next.oracles[i]));
                        }
                        if j < config.oracles.len() {
                            assert(config.oracles.contains(next.oracles[j]));
                        }
                    }
                },
                ProposalType::RemoveOracle => {
                    let oracle = oracle_address_of(payload)->Ok_0;
                    lemma_without_member(config.oracles, oracle);
                },
                _ => {},
            }
        },
        Err(_) => {},
    }
}

/// Removing a member from a list without duplicates leaves a list without
/// duplicates that lacks the member and is shorter by at most one.
pub proof fn lemma_without_member(oracles: Seq<Address>, oracle: Address)
    requires
        oracles.no_duplicates(),
    ensures
        without_member(oracles, oracle).no_duplicates(),
        !without_member(oracles, oracle).contains(oracle),
        without_member(oracles, oracle).len() == if oracles.contains(oracle) {
            oracles.len() - 1
        } else {
            oracles.len() as int
        },
        forall|other: Address|
            other != oracle ==> (#[trigger] without_member(oracles, oracle).contains(other)
                <==> oracles.contains(other)),
{
    let rest = without_member(oracles, oracle);
    if oracles.contains(oracle) {
        let k = member_index(oracles, oracle);
        assert forall|i: int| 0 <= i < rest.len() implies #[trigger] rest[i] == oracles[if i < k {
            i
        } else {
            i + 1
        }] by {}
        assert forall|other: Address| other != oracle implies (#[trigger] rest.contains(other)
            <==> oracles.contains(other)) by {
            if oracles.contains(other) {
                let m = choose|m: int| 0 <= m < oracles.len() && oracles[m] == other;
                let n = if m < k {
                    m
                } else {
                    m - 1
                };
                assert(rest[n] == other);
            }
            if rest.contains(other) {
                let n = choose|n: int| 0 <= n < rest.len() && rest[n] == other;
                assert(oracles[if n < k {
                    n
                } else {
                    n + 1
                }] == other);
            }
        }
        if rest.contains(oracle) {
            let n = choose|n: int| 0 <= n < rest.len() && rest[n] == oracle;
            assert(oracles[if n < k {
                n
            } else {
                n + 1
            }] == oracle);
        }
    }
}

/// Giving one oracle the initial record keeps records unique.
pub proof fn lemma_with_initial_record(records: Seq<OracleRecord>, oracle: Address)
    requires
        unique_records(records),
    ensures
        unique_records(with_initial_record(records, oracle)),
        has_record(with_initial_record(records, oracle), oracle),
{
    let after = with_initial_record(records, oracle);
    if has_record(records, oracle) {
        let k = record_index(records, oracle);
        assert(after[k].oracle == oracle);
        assert forall|i: int, j: int|
            0 <= i < after.len() && 0 <= j < after.len() && i != j implies (
        #[trigger] after[i]).oracle != (#[trigger] after[j]).oracle by {
            assert(after[i].oracle == records[i].oracle);
            assert(after[j].oracle == records[j].oracle);
        }
    } else {
        let k = records.len() as int;
        assert(after[k].oracle == oracle);
        assert forall|i: int, j: int|
            0 <= i < after.len() && 0 <= j < after.len() && i != j implies (
        #[trigger] after[i]).oracle != (#[trigger] after[j]).oracle by {
            if i < k {
                assert(after[i] == records[i]);
            }
            if j < k {
                assert(after[j] == records[j]);
            }
        }
    }
}

/// Oracle membership, reputation records and runtime parameters.
#[derive(Debug)]
pub struct OracleConfig {
    /// The oracle sources, in the order in which they were added.
    pub oracles: Vec<Address>,
    /// One reputation record per oracle that was ever added.
    pub records: Vec<OracleRecord>,
    /// Minimum oracle count, once governance has set it.
    pub min_oracles: Option<u32>,
    /// Price time-to-live in seconds, once governance has set it.
    pub price_ttl: Option<u64>,
    /// Largest tolerated deviation in basis points, once governance has set it.
    pub max_deviation_bps: Option<i128>,
    /// Whether price submissions are halted.
    pub paused: bool,
}

impl View for OracleConfig {
    type V = ConfigState;

    open spec fn view(&self) -> ConfigState {
        ConfigState {
            oracles: self.oracles@,
            records: self.records@,
            min_oracles: self.min_oracles,
            price_ttl: self.price_ttl,
            max_deviation_bps: self.max_deviation_bps,
            paused: self.paused,
        }
    }
}

/// Finds `oracle` in the membership list.
fn find_member(oracles: &Vec<Address>, oracle: &Address) -> (r: Option<usize>)
    ensures
        r is Some <==> oracles@.contains(*oracle),
        r matches Some(i) ==> i < oracles@.len() && oracles@[i as int] == *oracle,
{
    let mut i: usize = 0;
    while i < oracles.len()
        invariant
            i <= oracles@.len(),
            forall|j: int| 0 <= j < i ==> oracles@[j] != *oracle,
        decreases oracles@.len() - i,
    {
        if oracles[i] == *oracle {
            return Some(i);
        }
        i = i + 1;
    }
    None
}

/// Finds the record of `oracle`.
fn find_record(records: &Vec<OracleRecord>, oracle: &Address) -> (r: Option<usize>)
    ensures
        r is Some <==> has_record(records@, *oracle),
        r matches Some(i) ==> i < records@.len() && records@[i as int].oracle == *oracle,
{
    let mut i: usize = 0;
    while i < records.len()
        invariant
            i <= records@.len(),
            forall|j: int| 0 <= j < i ==> (#[trigger] records@[j]).oracle != *oracle,
        decreases records@.len() - i,
    {
        if records[i].oracle == *oracle {
            return Some(i);
        }
        i = i + 1;
    }
    None
}

impl OracleConfig {
    /// A configuration without oracles or parameters, not paused.
    pub fn new() -> (config: OracleConfig)
        ensures
            config@ == ConfigState::empty(),
            config@.wf(),
    {
        OracleConfig {
            oracles: Vec::new(),
            records: Vec::new(),
            min_oracles: None,
            price_ttl: None,
            max_deviation_bps: None,
            paused: false,
        }
    }

    /// Whether no oracle is listed twice and none has two records.
    pub fn is_well_formed(&self) -> (r: bool)
        ensures
            r == self@.wf(),
    {
        let n = self.oracles.len();
        let mut i: usize = 0;
        while i < n
            invariant
                n == self.oracles@.len(),
                i <= n,
                forall|a: int, b: int|
                    0 <= a < i && 0 <= b < a ==> self.oracles@[a] != self.oracles@[b],
            decreases n - i,
        {
            let mut j: usize = 0;
            while j < i
                invariant
                    n == self.oracles@.len(),
                    i < n,
                    j <= i,
                    forall|b: int| 0 <= b < j ==> self.oracles@[i as int] != self.oracles@[b],
                decreases i - j,
            {
                if self.oracles[j] == self.oracles[i] {
                    return false;
                }
                j = j + 1;
            }
            i = i + 1;
        }
        assert forall|a: int, b: int|
            0 <= a < self.oracles@.len() && 0 <= b < self.oracles@.len() && a
                != b implies self.oracles@[a] != self.oracles@[b] by {
            if b < a {
            } else {
                assert(self.oracles@[b] != self.oracles@[a]);
            }
        }
        let m = self.records.len();
        let mut i: usize = 0;
        while i < m
            invariant
                m == self.records@.len(),
                i <= m,
                forall|a: int, b: int|
                    0 <= a < i && 0 <= b < a ==> (#[trigger] self.records@[a]).oracle != (
                    #[trigger] self.records@[b]).oracle,
            decreases m - i,
        {
            let mut j: usize = 0;
            while j < i
                invariant
                    m == self.records@.len(),
                    i < m,
                    j <= i,
                    forall|b: int|
                        0 <= b < j ==> self.records@[i as int].oracle != (
                        #[trigger] self.records@[b]).oracle,
                decreases i - j,
            {
                if self.records[j].oracle == self.records[i].oracle {
                    return false;
                }
                j = j + 1;
            }
            i = i + 1;
        }
        assert forall|a: int, b: int|
            0 <= a < self.records@.len() && 0 <= b < self.records@.len() && a != b implies (
        #[trigger] self.records@[a]).oracle != (#[trigger] self.records@[b]).oracle by {
            if b < a {
            } else {
                assert(self.records@[b].oracle != self.records@[a].oracle);
            }
        }
        true
    }

    /// Whether `oracle` is a member.
    pub fn is_member(&self, oracle: &Address) -> (r: bool)
        ensures
            r == self@.oracles.contains(*oracle),
    {
        find_member(&self.oracles, oracle).is_some()
    }

    /// Adds the oracle named by `payload` and gives it the initial
    /// reputation. On failure nothing changes.
    pub fn exec_add_oracle(&mut self, payload: &Vec<u8>) -> (r: Result<(), OracleError>)
        requires
            old(self)@.wf(),
        ensures
            match old(self)@.add_oracle(payload@) {
                Ok(next) => r is Ok && final(self)@ == next,
                Err(e) => r == Err::<(), OracleError>(e) && *final(self) == *old(self),
            },
            final(self)@.wf(),
    {
        let oracle = decode_oracle_address(payload)?;
        if find_member(&self.oracles, &oracle).is_some() {
            return Err(OracleError::OracleAlreadyExists);
        }
        proof {
            lemma_apply_wf(self@, ProposalType::AddOracle, payload@);
        }
        self.oracles.push(oracle);
        let fresh = OracleRecord {
            oracle,
            reputation: OracleReputation {
                total_submissions: 0,
                accurate_submissions: 0,
                avg_deviation: 0,
                reputation_score: 50,
                weight: 1,
                last_slash: 0,
            },
        };
        match find_record(&self.records, &oracle) {
            Some(i) => {
                self.records[i] = fresh;
            },
            None => {
                self.records.push(fresh);
            },
        }
        Ok(())
    }

    /// Removes the oracle named by `payload`, unless that would leave fewer
    /// than `MIN_ORACLES`. On failure nothing changes.
    pub fn exec_remove_oracle(&mut self, payload: &Vec<u8>) -> (r: Result<(), OracleError>)
        requires
            old(self)@.wf(),
        ensures
            match old(self)@.remove_oracle(payload@) {
                Ok(next) => r is Ok && final(self)@ == next,
                Err(e) => r == Err::<(), OracleError>(e) && *final(self) == *old(self),
            },
            final(self)@.wf(),
    {
        let oracle = decode_oracle_address(payload)?;
        if self.oracles.len() <= MIN_ORACLES as usize {
            return Err(OracleError::InsufficientOracles);
        }
        proof {
            lemma_apply_wf(self@, ProposalType::RemoveOracle, payload@);
        }
        match find_member(&self.oracles, &oracle) {
            Some(i) => {
                self.oracles.remove(i);
            },
            None => {},
        }
        Ok(())
    }

    /// Sets the parameter named by `payload`. On failure nothing changes.
    pub fn exec_update_parameter(&mut self, payload: &Vec<u8>) -> (r: Result<(), OracleError>)
        ensures
            match old(self)@.update_parameter(payload@) {
                Ok(next) => r is Ok && final(self)@ == next,
                Err(e) => r == Err::<(), OracleError>(e) && *final(self) == *old(self),
            },
            old(self)@.wf() ==> final(self)@.wf(),
    {
        let (key, value) = decode_parameter(payload)?;
        if key == PARAM_MIN_ORACLES {
            self.min_oracles = Some(#[verifier::truncate] (value as u32));
        } else if key == PARAM_PRICE_TTL {
            self.price_ttl = Some(#[verifier::truncate] (value as u64));
        } else if key == PARAM_MAX_DEVIATION_BPS {
            self.max_deviation_bps = Some(value);
        } else {
            return Err(OracleError::InvalidPrice);
        }
        Ok(())
    }

    /// Halts price submissions. Always succeeds.
    pub fn exec_emergency_pause(&mut self) -> (r: Result<(), OracleError>)
        ensures
            r is Ok,
            Ok::<ConfigState, OracleError>(final(self)@) == old(self)@.emergency_pause(),
            old(self)@.wf() ==> final(self)@.wf(),
    {
        self.paused = true;
        Ok(())
    }

    /// Applies the change that a proposal of `kind` with `payload` asks for.
    /// On failure nothing changes.
    pub fn apply(&mut self, kind: ProposalType, payload: &Vec<u8>) -> (r: Result<(), OracleError>)
        requires
            old(self)@.wf(),
        ensures
            match old(self)@.apply(kind, payload@) {
                Ok(next) => r is Ok && final(self)@ == next,
                Err(e) => r == Err::<(), OracleError>(e) && *final(self) == *old(self),
            },
            final(self)@.wf(),
    {
        match kind {
            ProposalType::AddOracle => self.exec_add_oracle(payload),
            ProposalType::RemoveOracle => self.exec_remove_oracle(payload),
            ProposalType::UpdateParameter => self.exec_update_parameter(payload),
            ProposalType::EmergencyPause => self.exec_emergency_pause(),
        }
    }
}

} // verus!
