//! The synthetic tick source: ticks at consecutive timestamps with random prices,
//! needing nothing outside the process.

use vstd::prelude::*;

use crate::backtest::DataSource;
use crate::tick::Tick;

verus! {

/// Relies on `rand::random`: a value drawn from the thread-local generator.
/// Nothing is known of it.
pub assume_specification<T>[ rand::random::<T> ]() -> (r: T)
    where
        rand::distributions::Standard: rand::distributions::Distribution<T>,
;

/// The tick source of a backtest, resolved from its definition: what it reads,
/// for which symbol and from when.
pub enum TickGenerator {
    /// The recorded ticks of `symbol` in a flat file, from `start_time` on.
    Flatfile { symbol: String, start_time: Option<u64> },
    /// The live ticks published on `channel` at the pub/sub server `host`.
    RedisChannel { symbol: String, host: String, channel: String },
    /// The stored ticks of `symbol` in the database, from `start_time` on.
    Postgres { symbol: String, start_time: Option<u64> },
    /// Synthetic ticks.
    Random(RandomReader),
}

/// Picks the tick source that `data_source` names, for `symbol` from `start_time` on.
pub fn resolve_data_source(data_source: &DataSource, symbol: String, start_time: Option<u64>) -> (r: TickGenerator)
    ensures
        match *data_source {
            DataSource::Flatfile => r == TickGenerator::Flatfile { symbol, start_time },
            DataSource::RedisChannel { host, channel } => r == TickGenerator::RedisChannel { symbol, host, channel },
            DataSource::Postgres => r == TickGenerator::Postgres { symbol, start_time },
            DataSource::Random => r matches TickGenerator::Random(reader) && reader.next_timestamp == match start_time {
                Some(t) => t,
                None => 0,
            },
        },
{
    match data_source {
        DataSource::Flatfile => TickGenerator::Flatfile { symbol, start_time },
        DataSource::RedisChannel { host, channel } => TickGenerator::RedisChannel {
            symbol,
            host: host.clone(),
            channel: channel.clone(),
        },
        DataSource::Postgres => TickGenerator::Postgres { symbol, start_time },
        DataSource::Random => TickGenerator::Random(RandomReader::new(start_time)),
    }
}

/// Whether a recorded tick is replayed by a source that starts at `start_time`:
/// it is at or after that time, or there is none.
pub fn at_or_after(t: &Tick, start_time: Option<u64>) -> (r: bool)
    ensures
        r == match start_time {
            Some(s) => t.timestamp >= s,
            None => true,
        },
{
    match start_time {
        Some(s) => t.timestamp >= s,
        None => true,
    }
}

/// A source of random ticks, one per millisecond from `next_timestamp` on.
pub struct RandomReader {
    pub next_timestamp: u64,
}

impl RandomReader {
    /// A source whose first tick has the timestamp `start_time`, or 0.
    pub fn new(start_time: Option<u64>) -> (r: RandomReader)
        ensures
            r.next_timestamp == match start_time {
                Some(t) => t,
                None => 0,
            },
    {
        match start_time {
            Some(t) => RandomReader { next_timestamp: t },
            None => RandomReader { next_timestamp: 0 },
        }
    }

    /// The next tick: at the next timestamp, with random prices whose ask is not
    /// above its bid. `None` once the timestamps are used up.
    pub fn next_tick(&mut self) -> (r: Option<Tick>)
        ensures
            old(self).next_timestamp < u64::MAX ==> {
                &&& r matches Some(t) && t.timestamp == old(self).next_timestamp && t.ask <= t.bid
                &&& final(self).next_timestamp == old(self).next_timestamp + 1
            },
            old(self).next_timestamp == u64::MAX ==> r is None && final(self).next_timestamp == u64::MAX,
    {
        if self.next_timestamp == u64::MAX {
            return None;
        }
        let x: u32 = rand::random::<u32>();
        let y: u32 = rand::random::<u32>();
        let (bid, ask) = if x >= y { (x as usize, y as usize) } else { (y as usize, x as usize) };
        let t = Tick { bid, ask, timestamp: self.next_timestamp };
        self.next_timestamp = self.next_timestamp + 1;
        Some(t)
    }

    /// The next `n` ticks, or as many as the timestamps allow.
    pub fn take_ticks(&mut self, n: usize) -> (r: Vec<Tick>)
        ensures
            r.len() <= n,
            old(self).next_timestamp + n <= u64::MAX ==> r.len() == n,
            forall|i: int| 0 <= i < r.len() ==> (#[trigger] r@[i]).timestamp == old(self).next_timestamp + i
                && r@[i].ask <= r@[i].bid,
    {
        let mut out: Vec<Tick> = Vec::new();
        let ghost start = self.next_timestamp;
        let mut i: usize = 0;
        while i < n
            invariant
                i <= n,
                out.len() == i,
                self.next_timestamp == start + i,
                start == old(self).next_timestamp,
                forall|j: int| 0 <= j < out.len() ==> (#[trigger] out@[j]).timestamp == start + j
                    && out@[j].ask <= out@[j].bid,
            decreases n - i,
        {
            match self.next_tick() {
                Some(t) => out.push(t),
                None => return out,
            }
            i = i + 1;
        }
        out
    }
}

} // verus!
