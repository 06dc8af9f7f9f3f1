//! The circuit persistence settings that two environment variables select.
//!
//! Reading the environment is the caller's part. What was read comes in as
//! an [`EnvReading`], and the choice comes out, or the reason why the value
//! cannot be used.

use vstd::prelude::*;

verus! {

/// What a read of one environment variable gave.
#[derive(Debug, Clone)]
pub enum EnvReading {
    /// The variable is set; these are the bytes of its value.
    Value(Vec<u8>),
    NotPresent,
    NotUnicode,
}

/// How the circuit tables are loaded.
#[derive(Debug, Clone, Copy, PartialEq, Eq, Structural)]
pub enum TableLoadStrategy {
    OnDemand,
    Monolithic,
}

/// Where the circuits are kept between runs.
#[derive(Debug, Clone, Copy, PartialEq, Eq, Structural)]
pub enum PersistenceChoice {
    /// Nowhere.
    NoPersistence,
    /// On disk, with the tables loaded by this strategy.
    Disk(TableLoadStrategy),
    /// On disk, with the strategy that is the default.
    DiskWithDefaultStrategy,
    /// Whatever is the default.
    Unspecified,
}

/// Why a setting cannot be used.
#[derive(Debug, Clone, Copy, PartialEq, Eq, Structural)]
pub enum PsmError {
    UnknownTableLoadStrategy,
    NonUnicodeTableLoadStrategy,
    UnknownPersistence,
    NonUnicodePersistence,
}

/// `needle` stands in `hay` at position `at`.
pub open spec fn occurs_at(hay: Seq<u8>, needle: Seq<u8>, at: int) -> bool {
    &&& 0 <= at
    &&& at + needle.len() <= hay.len()
    &&& forall|k: int| 0 <= k < needle.len() ==> hay[at + k] == #[trigger] needle[k]
}

/// `needle` stands somewhere in `hay`.
pub open spec fn contains_word(hay: Seq<u8>, needle: Seq<u8>) -> bool {
    exists|at: int| occurs_at(hay, needle, at)
}

/// The bytes of `ON_DEMAND`.
pub open spec fn on_demand_word() -> Seq<u8> {
    seq![79u8, 78u8, 95u8, 68u8, 69u8, 77u8, 65u8, 78u8, 68u8]
}

/// The bytes of `MONOLITHIC`.
pub open spec fn monolithic_word() -> Seq<u8> {
    seq![77u8, 79u8, 78u8, 79u8, 76u8, 73u8, 84u8, 72u8, 73u8, 67u8]
}

/// The bytes of `NONE`.
pub open spec fn none_word() -> Seq<u8> {
    seq![78u8, 79u8, 78u8, 69u8]
}

/// The bytes of `DISK`.
pub open spec fn disk_word() -> Seq<u8> {
    seq![68u8, 73u8, 83u8, 75u8]
}

/// The strategy that a reading selects: the first of `ON_DEMAND` and
/// `MONOLITHIC` that the value contains, none where the variable is not set.
pub open spec fn strategy_of(reading: EnvReading) -> Result<Option<TableLoadStrategy>, PsmError> {
    match reading {
        EnvReading::Value(value) => if contains_word(value@, on_demand_word()) {
            Ok(Some(TableLoadStrategy::OnDemand))
        } else if contains_word(value@, monolithic_word()) {
            Ok(Some(TableLoadStrategy::Monolithic))
        } else {
            Err(PsmError::UnknownTableLoadStrategy)
        },
        EnvReading::NotPresent => Ok(None),
        EnvReading::NotUnicode => Err(PsmError::NonUnicodeTableLoadStrategy),
    }
}

/// The persistence that a reading selects, given the strategy: `NONE` before
/// `DISK`, the default where the variable is not set.
pub open spec fn persistence_of(reading: EnvReading, strategy: Option<TableLoadStrategy>)
    -> Result<PersistenceChoice, PsmError> {
    match reading {
        EnvReading::Value(value) => if contains_word(value@, none_word()) {
            Ok(PersistenceChoice::NoPersistence)
        } else if contains_word(value@, disk_word()) {
            match strategy {
                Some(chosen) => Ok(PersistenceChoice::Disk(chosen)),
                None => Ok(PersistenceChoice::DiskWithDefaultStrategy),
            }
        } else {
            Err(PsmError::UnknownPersistence)
        },
        EnvReading::NotPresent => Ok(PersistenceChoice::Unspecified),
        EnvReading::NotUnicode => Err(PsmError::NonUnicodePersistence),
    }
}

/// Whether `needle` stands in `hay` at position `at`.
fn matches_at(hay: &Vec<u8>, needle: &Vec<u8>, at: usize) -> (r: bool)
    requires
        at + needle.len() <= hay.len(),
    ensures
        r == occurs_at(hay@, needle@, at as int),
{
    let mut k: usize = 0;
    while k < needle.len()
        invariant
            k <= needle.len(),
            at + needle.len() <= hay.len(),
            forall|j: int| 0 <= j < k ==> hay@[at + j] == #[trigger] needle@[j],
        decreases needle.len() - k,
    {
        if hay[at + k] != needle[k] {
            return false;
        }
        k = k + 1;
    }
    true
}

/// Whether `needle` stands somewhere in `hay`.
pub fn contains(hay: &Vec<u8>, needle: &Vec<u8>) -> (r: bool)
    ensures
        r == contains_word(hay@, needle@),
{
    if needle.len() > hay.len() {
        return false;
    }
    let last: usize = hay.len() - needle.len();
    let mut at: usize = 0;
    while at <= last
        invariant
            at <= last + 1,
            last == hay.len() - needle.len(),
            forall|j: int| 0 <= j < at ==> !occurs_at(hay@, needle@, j),
        decreases last + 1 - at,
    {
        if matches_at(hay, needle, at) {
            return true;
        }
        at = at + 1;
    }
    false
}

fn on_demand() -> (w: Vec<u8>)
    ensures
        w@ == on_demand_word(),
{
    let w: Vec<u8> = vec![79u8, 78u8, 95u8, 68u8, 69u8, 77u8, 65u8, 78u8, 68u8];
    assert(w@ =~= on_demand_word());
    w
}

fn monolithic() -> (w: Vec<u8>)
    ensures
        w@ == monolithic_word(),
{
    let w: Vec<u8> = vec![77u8, 79u8, 78u8, 79u8, 76u8, 73u8, 84u8, 72u8, 73u8, 67u8];
    assert(w@ =~= monolithic_word());
    w
}

fn none() -> (w: Vec<u8>)
    ensures
        w@ == none_word(),
{
    let w: Vec<u8> = vec![78u8, 79u8, 78u8, 69u8];
    assert(w@ =~= none_word());
    w
}

fn disk() -> (w: Vec<u8>)
    ensures
        w@ == disk_word(),
{
    let w: Vec<u8> = vec![68u8, 73u8, 83u8, 75u8];
    assert(w@ =~= disk_word());
    w
}

/// The table load strategy that the reading of its variable selects.
pub fn table_load_strategy(reading: &EnvReading) -> (r: Result<Option<TableLoadStrategy>, PsmError>)
    ensures
        r == strategy_of(*reading),
{
    match reading {
        EnvReading::Value(value) => {
            if contains(value, &on_demand()) {
                Ok(Some(TableLoadStrategy::OnDemand))
            } else if contains(value, &monolithic()) {
                Ok(Some(TableLoadStrategy::Monolithic))
            } else {
                Err(PsmError::UnknownTableLoadStrategy)
            }
        },
        EnvReading::NotPresent => Ok(None),
        EnvReading::NotUnicode => Err(PsmError::NonUnicodeTableLoadStrategy),
    }
}

/// The persistence that the reading of its variable selects.
pub fn circuit_persistence(reading: &EnvReading, strategy: Option<TableLoadStrategy>) -> (r: Result<
    PersistenceChoice,
    PsmError,
>)
    ensures
        r == persistence_of(*reading, strategy),
{
    match reading {
        EnvReading::Value(value) => {
            if contains(value, &none()) {
                Ok(PersistenceChoice::NoPersistence)
            } else if contains(value, &disk()) {
                match strategy {
                    Some(chosen) => Ok(PersistenceChoice::Disk(chosen)),
                    None => Ok(PersistenceChoice::DiskWithDefaultStrategy),
                }
            } else {
                Err(PsmError::UnknownPersistence)
            }
        },
        EnvReading::NotPresent => Ok(PersistenceChoice::Unspecified),
        EnvReading::NotUnicode => Err(PsmError::NonUnicodePersistence),
    }
}

/// The persistence that the readings of the two variables select together.
/// A strategy that cannot be used is reported before the persistence is
/// looked at.
pub fn persistence_from_readings(strategy: &EnvReading, persistence: &EnvReading) -> (r: Result<
    PersistenceChoice,
    PsmError,
>)
    ensures
        r == (match strategy_of(*strategy) {
            Ok(chosen) => persistence_of(*persistence, chosen),
            Err(error) => Err(error),
        }),
{
    match table_load_strategy(strategy) {
        Ok(chosen) => circuit_persistence(persistence, chosen),
        Err(error) => Err(error),
    }
}

} // verus!
