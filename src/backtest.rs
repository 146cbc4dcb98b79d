//! What a backtest is made of: how its ticks are timed, where they come from,
//! where they go, when it ends early, and the record kept of a running one.

use vstd::prelude::*;

use crate::control::TickstreamCommand;
use crate::tick::Tick;
use std::sync::mpsc::SyncSender;

verus! {

/// The pace at which a backtest hands out its ticks.
#[derive(Clone, Debug)]
pub enum BacktestType {
    /// A fixed pause of `delay_ms` milliseconds before each tick.
    Fast { delay_ms: usize },
    /// Pauses that follow the gaps between the ticks' timestamps.
    Live,
}

/// Where a backtest takes its ticks from.
#[derive(Clone, Debug)]
pub enum DataSource {
    Flatfile,
    RedisChannel { host: String, channel: String },
    Postgres,
    Random,
}

/// Where a backtest sends its ticks.
#[derive(Clone, Debug)]
pub enum DataDest {
    RedisChannel { host: String, channel: String },
    Console,
    Null,
    /// A simulated broker registered under this identifier.
    SimBroker { uuid: u128 },
}

/// All that is needed to start a backtest.
#[derive(Clone, Debug)]
pub struct BacktestDefinition {
    pub start_time: Option<u64>,
    /// Stop the backtest once a tick at or after this timestamp was sent.
    pub max_timestamp: Option<u64>,
    /// Stop the backtest once this many ticks were sent.
    pub max_tick_n: Option<usize>,
    pub symbol: String,
    pub backtest_type: BacktestType,
    pub data_source: DataSource,
    pub data_dest: DataDest,
    /// Settings of the simulated broker, by name.
    pub broker_settings: Vec<(String, String)>,
}

/// A running backtest: what it is, and the sender of its control channel.
pub struct BacktestHandle {
    pub symbol: String,
    pub backtest_type: BacktestType,
    pub data_source: DataSource,
    pub endpoint: DataDest,
    pub handle: SyncSender<TickstreamCommand>,
}

/// What may be shown of a running backtest: everything but its control channel.
#[derive(Clone, Debug)]
pub struct SerializableBacktestHandle {
    pub uuid: u128,
    pub symbol: String,
    pub backtest_type: BacktestType,
    pub data_source: DataSource,
    pub endpoint: DataDest,
}

impl BacktestType {
    /// A copy of this value.
    pub fn duplicate(&self) -> (r: BacktestType)
        ensures
            r == *self,
    {
        match self {
            BacktestType::Fast { delay_ms } => BacktestType::Fast { delay_ms: *delay_ms },
            BacktestType::Live => BacktestType::Live,
        }
    }
}

impl DataSource {
    /// A copy of this value.
    pub fn duplicate(&self) -> (r: DataSource)
        ensures
            r == *self,
    {
        match self {
            DataSource::Flatfile => DataSource::Flatfile,
            DataSource::RedisChannel { host, channel } => DataSource::RedisChannel {
                host: host.clone(),
                channel: channel.clone(),
            },
            DataSource::Postgres => DataSource::Postgres,
            DataSource::Random => DataSource::Random,
        }
    }
}

impl DataDest {
    /// A copy of this value.
    pub fn duplicate(&self) -> (r: DataDest)
        ensures
            r == *self,
    {
        match self {
            DataDest::RedisChannel { host, channel } => DataDest::RedisChannel {
                host: host.clone(),
                channel: channel.clone(),
            },
            DataDest::Console => DataDest::Console,
            DataDest::Null => DataDest::Null,
            DataDest::SimBroker { uuid } => DataDest::SimBroker { uuid: *uuid },
        }
    }
}

/// Whether `h` shows the handle `b` under the identifier `id`.
pub open spec fn shows(h: SerializableBacktestHandle, id: u128, b: BacktestHandle) -> bool {
    &&& h.uuid == id
    &&& h.symbol == b.symbol
    &&& h.backtest_type == b.backtest_type
    &&& h.data_source == b.data_source
    &&& h.endpoint == b.endpoint
}

impl SerializableBacktestHandle {
    /// What may be shown of the handle `handle` registered under `uuid`.
    pub fn from_handle(handle: &BacktestHandle, uuid: u128) -> (r: SerializableBacktestHandle)
        ensures
            shows(r, uuid, *handle),
    {
        SerializableBacktestHandle {
            uuid,
            symbol: handle.symbol.clone(),
            backtest_type: handle.backtest_type.duplicate(),
            data_source: handle.data_source.duplicate(),
            endpoint: handle.endpoint.duplicate(),
        }
    }
}

/// The early-exit rule: the `count`-th tick sent, `t`, ends the backtest when the
/// tick limit is reached or the tick is at or after the timestamp limit.
pub open spec fn exit_due(max_tick_n: Option<usize>, max_timestamp: Option<u64>, t: Tick, count: int) -> bool {
    (max_tick_n matches Some(n) && n <= count) || (max_timestamp matches Some(m) && m <= t.timestamp)
}

/// Whether the backtest `def` has to end after sending `t` as its `i`-th tick.
pub fn check_early_exit(t: &Tick, def: &BacktestDefinition, i: usize) -> (r: bool)
    ensures
        r == exit_due(def.max_tick_n, def.max_timestamp, *t, i as int),
{
    let by_count = match def.max_tick_n {
        Some(n) => n <= i,
        None => false,
    };
    let by_time = match def.max_timestamp {
        Some(m) => m <= t.timestamp,
        None => false,
    };
    by_count || by_time
}

} // verus!
