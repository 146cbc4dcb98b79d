//! The backtester: the registry of running backtests and of simulated-broker settings,
//! and the commands that start, steer, stop and list them.

use vstd::prelude::*;

use crate::backtest::{shows, BacktestDefinition, BacktestHandle, DataDest, SerializableBacktestHandle};
use crate::control::{send_command, sent_on, CommandError, TickstreamCommand};
use crate::control::{action_of, next_state, state_after, PolicyAction, StreamState};
use crate::ids::{fresh_id, hyphenated_text, id_text};
use crate::job::{deliveries, first_exit, lemma_exit_by_count, lemma_exit_by_timestamp, lemma_nothing_before_resume, lemma_pause_then_resume};
use crate::tick::Tick;
use crate::json::{json_text_array, quote_json_array, views_of};
use std::collections::HashMap;
use vstd::std_specs::iter::IteratorSpec;
use std::sync::mpsc::SyncSender;

verus! {

broadcast use vstd::std_specs::hash::group_hash_axioms;

/// A command to the backtester, as the transport hands it over: identifiers are
/// decoded, and a start carries its decoded definition and the sending end of the
/// new backtest's control channel.
pub enum Command {
    Ping,
    Type,
    StartBacktest { definition: BacktestDefinition, control: SyncSender<TickstreamCommand> },
    Kill,
    PauseBacktest { uuid: u128 },
    ResumeBacktest { uuid: u128 },
    StopBacktest { uuid: u128 },
    ListBacktests,
    /// Files the settings of a new simulated broker under a fresh identifier.
    SpawnSimbroker { settings: Vec<(String, String)> },
    ListSimbrokers,
    /// Any command the backtester has no use for.
    Other,
}

/// The backtester's answer to a command.
pub enum Response {
    Success,
    Error { status: String },
    Info { info: String },
    Pong { args: Vec<String> },
    /// The running backtests; the transport writes them out as a JSON array.
    Backtests { list: Vec<SerializableBacktestHandle> },
}

/// The backtester's state: its own identifier and its two registries.
pub struct Backtester {
    pub uuid: u128,
    pub running_backtests: HashMap<u128, BacktestHandle>,
    /// The simulated brokers known here: the settings filed under each identifier.
    /// No broker instance is kept; the broker runs outside this library.
    pub simbrokers: HashMap<u128, Vec<(String, String)>>,
}

/// The error text for a command on an identifier that names no backtest.
pub open spec fn no_backtest_text() -> Seq<char> {
    "No backtest with that UUID!"@
}

/// The error text for a start on a simulated broker that is not registered.
pub open spec fn no_simbroker_text() -> Seq<char> {
    "No SimBroker running with that Uuid!"@
}

/// The error text for a new broker whose freshly drawn identifier is already taken.
pub open spec fn taken_broker_text() -> Seq<char> {
    "The drawn broker identifier is already in use."@
}

/// The error text for a start whose freshly drawn identifier is already taken.
pub open spec fn taken_id_text() -> Seq<char> {
    "The drawn backtest identifier is already in use."@
}

/// Whether `h` is the handle that a start with `def` and `tx` registers.
pub open spec fn handle_of(h: BacktestHandle, def: BacktestDefinition, tx: SyncSender<TickstreamCommand>) -> bool {
    &&& h.symbol == def.symbol
    &&& h.backtest_type == def.backtest_type
    &&& h.data_source == def.data_source
    &&& h.endpoint == def.data_dest
    &&& h.handle == tx
}

/// The error text for a command to a backtest whose thread is gone.
pub open spec fn ended_text() -> Seq<char> {
    "That backtest has already ended."@
}

/// The error text for a command to a backtest whose channel is full.
pub open spec fn busy_text() -> Seq<char> {
    "That backtest is not taking commands."@
}

/// The answer to a Kill command.
pub open spec fn kill_text() -> Seq<char> {
    "Backtester will self-destruct in 3 seconds."@
}

/// The answer to a command the backtester has no use for.
pub open spec fn unknown_command_text() -> Seq<char> {
    "Backtester doesn't recognize that command."@
}

/// Whether `ids` holds each key of `m` exactly once.
pub open spec fn lists_ids<V>(ids: Seq<u128>, m: Map<u128, V>) -> bool {
    &&& ids.len() == m.dom().len()
    &&& forall|i: int| 0 <= i < ids.len() ==> m.contains_key(#[trigger] ids[i])
    &&& forall|k: u128| #[trigger] m.contains_key(k) ==> exists|i: int| 0 <= i < ids.len() && #[trigger] ids[i] == k
}

/// The hyphenated texts of a list of identifiers.
pub open spec fn texts_of(ids: Seq<u128>) -> Seq<Seq<char>> {
    ids.map_values(|i: u128| hyphenated_text(i))
}

/// Whether two handles describe the same backtest.
pub open spec fn same_job(a: BacktestHandle, b: BacktestHandle) -> bool {
    &&& a.symbol == b.symbol
    &&& a.backtest_type == b.backtest_type
    &&& a.data_source == b.data_source
    &&& a.endpoint == b.endpoint
}

/// Whether `after` is `before` with `cmd` queued on the channel of the backtest
/// `uuid`, and nothing else changed.
pub open spec fn queued(
    before: Map<u128, BacktestHandle>,
    after: Map<u128, BacktestHandle>,
    uuid: u128,
    cmd: TickstreamCommand,
) -> bool {
    &&& before.contains_key(uuid)
    &&& after.contains_key(uuid)
    &&& after.remove(uuid) == before.remove(uuid)
    &&& same_job(after[uuid], before[uuid])
    &&& sent_on(after[uuid].handle) == sent_on(before[uuid].handle).push(cmd)
}

/// The answer to a Pause or Resume whose send came out as `sent`.
pub open spec fn steer_answer(r: Response, sent: Result<(), CommandError>) -> bool {
    match sent {
        Ok(()) => r is Success,
        Err(CommandError::NoSuchBacktest) => r matches Response::Error { status } && status@ == no_backtest_text(),
        Err(CommandError::ChannelClosed) => r matches Response::Error { status } && status@ == ended_text(),
        Err(CommandError::ChannelFull) => r matches Response::Error { status } && status@ == busy_text(),
    }
}

/// The answer to a Pause or Resume (`cmd`) of `uuid`, with the registry before and
/// after it: an unknown identifier changes nothing; otherwise the command is queued
/// and the answer is Ok, or the backtest's thread is gone and it is dropped, or its
/// channel is full and nothing changes.
pub open spec fn steer_effect(
    r: Response,
    uuid: u128,
    cmd: TickstreamCommand,
    before: Map<u128, BacktestHandle>,
    after: Map<u128, BacktestHandle>,
) -> bool {
    if !before.contains_key(uuid) {
        r matches Response::Error { status } && status@ == no_backtest_text() && after == before
    } else {
        (r is Success && queued(before, after, uuid, cmd)) || (r matches Response::Error { status } && status@
            == ended_text() && after == before.remove(uuid)) || (r matches Response::Error { status } && status@
            == busy_text() && after == before)
    }
}

/// A map that holds a key has a nonempty, finite domain.
proof fn lemma_held_key_counts<V>(m: Map<u128, V>, k: u128)
    requires
        m.dom().finite(),
        m.contains_key(k),
    ensures
        m.dom().len() > 0,
{
    assert(m.dom().remove(k).len() + 1 == m.dom().len());
}

/// Whether a start with `def` names a simulated broker that `brokers` lacks.
pub open spec fn unknown_broker(def: BacktestDefinition, brokers: Map<u128, Vec<(String, String)>>) -> bool {
    def.data_dest matches DataDest::SimBroker { uuid } && !brokers.contains_key(uuid)
}

/// Whether `list` shows exactly the backtests of `m`, each once.
pub open spec fn lists(list: Seq<SerializableBacktestHandle>, m: Map<u128, BacktestHandle>) -> bool {
    &&& list.len() == m.dom().len()
    &&& forall|i: int| 0 <= i < list.len() ==> m.contains_key(#[trigger] list[i].uuid) && shows(list[i], list[i].uuid, m[list[i].uuid])
    &&& forall|k: u128| #[trigger] m.contains_key(k) ==> exists|i: int| 0 <= i < list.len() && #[trigger] list[i].uuid == k
}

impl Backtester {
    /// A backtester with the identifier `uuid`, running nothing.
    pub fn new(uuid: u128) -> (r: Backtester)
        ensures
            r.uuid == uuid,
            r.running_backtests@ == Map::<u128, BacktestHandle>::empty(),
            r.simbrokers@ == Map::<u128, Vec<(String, String)>>::empty(),
    {
        Backtester { uuid, running_backtests: HashMap::new(), simbrokers: HashMap::new() }
    }

    /// Files the settings of a simulated broker under `id`, where `id` is not taken
    /// yet; true where they were filed.
    pub fn register_simbroker(&mut self, id: u128, settings: Vec<(String, String)>) -> (r: bool)
        ensures
            r == !old(self).simbrokers@.contains_key(id),
            r ==> final(self).simbrokers@ == old(self).simbrokers@.insert(id, settings),
            !r ==> final(self).simbrokers@ == old(self).simbrokers@,
            final(self).running_backtests@ == old(self).running_backtests@,
            final(self).uuid == old(self).uuid,
    {
        if self.simbrokers.contains_key(&id) {
            false
        } else {
            self.simbrokers.insert(id, settings);
            true
        }
    }

    /// Files the settings of a new simulated broker under a freshly drawn identifier,
    /// which is returned. Only the settings are kept here: the broker itself runs
    /// elsewhere. It fails, filing nothing, where the identifier drawn is taken.
    pub fn init_simbroker(&mut self, settings: Vec<(String, String)>) -> (r: Result<u128, String>)
        ensures
            final(self).running_backtests@ == old(self).running_backtests@,
            final(self).uuid == old(self).uuid,
            match r {
                Ok(id) => !old(self).simbrokers@.contains_key(id)
                    && final(self).simbrokers@ == old(self).simbrokers@.insert(id, settings),
                Err(e) => e@ == taken_broker_text() && final(self).simbrokers@ == old(self).simbrokers@
                    && old(self).simbrokers@.dom().len() > 0,
            },
    {
        let id = fresh_id();
        if self.register_simbroker(id, settings) {
            Ok(id)
        } else {
            proof {
                lemma_held_key_counts(self.simbrokers@, id);
            }
            Err(String::from_str("The drawn broker identifier is already in use."))
        }
    }

    /// Registers a new backtest made from `definition`, steered through `control`,
    /// under `id`, where `id` is not taken yet; returns `id`.
    pub fn register_backtest(&mut self, id: u128, definition: BacktestDefinition, control: SyncSender<TickstreamCommand>) -> (r: Result<u128, String>)
        ensures
            (r is Err) <==> old(self).running_backtests@.contains_key(id),
            r is Ok ==> r == Ok::<u128, String>(id) && final(self).running_backtests@.contains_key(id)
                && handle_of(final(self).running_backtests@[id], definition, control)
                && final(self).running_backtests@.remove(id) == old(self).running_backtests@,
            r matches Err(e) ==> e@ == taken_id_text() && final(self).running_backtests@ == old(self).running_backtests@,
            final(self).simbrokers@ == old(self).simbrokers@,
            final(self).uuid == old(self).uuid,
    {
        if self.running_backtests.contains_key(&id) {
            return Err(String::from_str("The drawn backtest identifier is already in use."));
        }
        let handle = BacktestHandle {
            symbol: definition.symbol,
            backtest_type: definition.backtest_type,
            data_source: definition.data_source,
            endpoint: definition.data_dest,
            handle: control,
        };
        let ghost before = self.running_backtests@;
        self.running_backtests.insert(id, handle);
        proof {
            assert(self.running_backtests@.remove(id) =~= before);
        }
        Ok(id)
    }

    /// Registers a new backtest made from `definition`, steered through `control`,
    /// under a freshly drawn identifier, which is returned. It fails, registering
    /// nothing, where the definition names a simulated broker that is not
    /// registered, or where the identifier drawn is already taken.
    pub fn start_backtest(&mut self, definition: BacktestDefinition, control: SyncSender<TickstreamCommand>) -> (r: Result<u128, String>)
        ensures
            final(self).uuid == old(self).uuid,
            final(self).simbrokers@ == old(self).simbrokers@,
            match r {
                Ok(id) => {
                    &&& !unknown_broker(definition, old(self).simbrokers@)
                    &&& !old(self).running_backtests@.contains_key(id)
                    &&& final(self).running_backtests@.contains_key(id)
                    &&& final(self).running_backtests@.remove(id) == old(self).running_backtests@
                    &&& handle_of(final(self).running_backtests@[id], definition, control)
                },
                Err(e) => {
                    &&& final(self).running_backtests@ == old(self).running_backtests@
                    &&& (e@ == no_simbroker_text() <==> unknown_broker(definition, old(self).simbrokers@))
                    &&& (e@ == no_simbroker_text() || e@ == taken_id_text())
                    &&& e@ == taken_id_text() ==> old(self).running_backtests@.dom().len() > 0
                },
            },
    {
        proof {
            reveal_strlit("No SimBroker running with that Uuid!");
            reveal_strlit("The drawn backtest identifier is already in use.");
        }
        if let DataDest::SimBroker { uuid } = &definition.data_dest {
            if !self.simbrokers.contains_key(uuid) {
                return Err(String::from_str("No SimBroker running with that Uuid!"));
            }
        }
        let id = fresh_id();
        let r = self.register_backtest(id, definition, control);
        proof {
            if r is Err {
                assert(taken_id_text().len() != no_simbroker_text().len());
                lemma_held_key_counts(self.running_backtests@, id);
            }
        }
        r
    }

    /// Drops the backtest registered under `uuid`, if any.
    pub fn remove_backtest(&mut self, uuid: &u128)
        ensures
            final(self).running_backtests@ == old(self).running_backtests@.remove(*uuid),
            final(self).simbrokers@ == old(self).simbrokers@,
            final(self).uuid == old(self).uuid,
    {
        self.running_backtests.remove(uuid);
    }

    /// Queues `cmd` on the control channel of the backtest registered under `uuid`,
    /// behind the commands queued before. Nothing else changes.
    pub fn send_backtest_cmd(&mut self, uuid: &u128, cmd: TickstreamCommand) -> (r: Result<(), CommandError>)
        ensures
            (r == Err::<(), CommandError>(CommandError::NoSuchBacktest)) <==> !old(self).running_backtests@.contains_key(*uuid),
            r is Ok ==> queued(old(self).running_backtests@, final(self).running_backtests@, *uuid, cmd),
            r is Err ==> final(self).running_backtests@ == old(self).running_backtests@,
            final(self).simbrokers@ == old(self).simbrokers@,
            final(self).uuid == old(self).uuid,
    {
        let ghost before = self.running_backtests@;
        match self.running_backtests.remove(uuid) {
            None => {
                proof {
                    assert(self.running_backtests@ =~= before);
                }
                Err(CommandError::NoSuchBacktest)
            },
            Some(mut h) => {
                let r = send_command(&mut h.handle, cmd);
                self.running_backtests.insert(*uuid, h);
                proof {
                    assert(self.running_backtests@.remove(*uuid) =~= before.remove(*uuid));
                    if r is Err {
                        assert(self.running_backtests@ =~= before);
                    }
                }
                r
            },
        }
    }

    /// The identifiers of the simulated brokers, each once.
    pub fn list_simbrokers(&self) -> (r: Vec<u128>)
        ensures
            lists_ids(r@, self.simbrokers@),
    {
        let mut out: Vec<u128> = Vec::new();
        let ghost v = vstd::std_specs::hash::spec_hash_map_iter(&self.simbrokers).remaining();
        for kv in it: self.simbrokers.iter()
            invariant
                out.len() == it.index(),
                it.seq() == v,
                forall|j: int| 0 <= j < out.len() ==> out@[j] == *it.seq()[j].0,
        {
            let (k, _) = kv;
            out.push(*k);
        }
        proof {
            let m = self.simbrokers@;
            assert(v.len() == m.dom().len());
            assert forall|i: int| 0 <= i < out@.len() implies m.contains_key(#[trigger] out@[i]) by {
                assert(m.contains_key(*v[i].0));
            }
            assert forall|k: u128| #[trigger] m.contains_key(k) implies exists|i: int| 0 <= i < out@.len() && #[trigger] out@[i] == k by {
                assert(v.contains((&k, &m[k])));
                let i = choose|i: int| 0 <= i < v.len() && v[i] == (&k, &m[k]);
                assert(out@[i] == k);
            }
        }
        out
    }

    /// The answer to a Pause or Resume of `uuid` once the send came out as `sent`.
    /// A backtest whose thread is gone is dropped from the registry; otherwise
    /// nothing changes.
    pub fn steer_response(&mut self, uuid: &u128, sent: Result<(), CommandError>) -> (r: Response)
        ensures
            steer_answer(r, sent),
            sent == Err::<(), CommandError>(CommandError::ChannelClosed) ==> final(self).running_backtests@
                == old(self).running_backtests@.remove(*uuid),
            sent != Err::<(), CommandError>(CommandError::ChannelClosed) ==> final(self).running_backtests@
                == old(self).running_backtests@,
            final(self).simbrokers@ == old(self).simbrokers@,
            final(self).uuid == old(self).uuid,
    {
        proof {
            reveal_strlit("No backtest with that UUID!");
            reveal_strlit("That backtest has already ended.");
            reveal_strlit("That backtest is not taking commands.");
        }
        match sent {
            Ok(()) => Response::Success,
            Err(CommandError::NoSuchBacktest) => Response::Error { status: String::from_str("No backtest with that UUID!") },
            Err(CommandError::ChannelClosed) => {
                self.remove_backtest(uuid);
                Response::Error { status: String::from_str("That backtest has already ended.") }
            },
            Err(CommandError::ChannelFull) => Response::Error { status: String::from_str("That backtest is not taking commands.") },
        }
    }

    /// Sends Pause or Resume to the backtest under `uuid` and answers.
    fn steer(&mut self, uuid: &u128, cmd: TickstreamCommand) -> (r: Response)
        ensures
            steer_effect(r, *uuid, cmd, old(self).running_backtests@, final(self).running_backtests@),
            final(self).simbrokers@ == old(self).simbrokers@,
            final(self).uuid == old(self).uuid,
    {
        let sent = self.send_backtest_cmd(uuid, cmd);
        self.steer_response(uuid, sent)
    }

    /// Settles a Stop of `uuid` once its send came out as `sent`: where the Stop was
    /// queued, or the thread is already gone, the backtest is dropped; otherwise the
    /// registry is left as it is and the error is passed on.
    pub fn settle_stop(&mut self, uuid: &u128, sent: Result<(), CommandError>) -> (r: Result<(), CommandError>)
        ensures
            (sent is Ok || sent == Err::<(), CommandError>(CommandError::ChannelClosed)) ==> r is Ok
                && final(self).running_backtests@ == old(self).running_backtests@.remove(*uuid),
            sent == Err::<(), CommandError>(CommandError::ChannelFull) ==> r == sent
                && final(self).running_backtests@ == old(self).running_backtests@,
            sent == Err::<(), CommandError>(CommandError::NoSuchBacktest) ==> r == sent
                && final(self).running_backtests@ == old(self).running_backtests@,
            final(self).simbrokers@ == old(self).simbrokers@,
            final(self).uuid == old(self).uuid,
    {
        match sent {
            Err(CommandError::NoSuchBacktest) => Err(CommandError::NoSuchBacktest),
            Err(CommandError::ChannelFull) => Err(CommandError::ChannelFull),
            _ => {
                self.remove_backtest(uuid);
                Ok(())
            },
        }
    }

    /// Stops the backtest under `uuid` and drops it from the registry; a backtest
    /// whose thread is already gone is dropped all the same. A backtest whose
    /// channel is full is left registered, and the error says so.
    pub fn stop_backtest(&mut self, uuid: &u128) -> (r: Result<(), CommandError>)
        ensures
            (r == Err::<(), CommandError>(CommandError::NoSuchBacktest)) <==> !old(self).running_backtests@.contains_key(*uuid),
            r is Err ==> r == Err::<(), CommandError>(CommandError::NoSuchBacktest) || r == Err::<(), CommandError>(CommandError::ChannelFull),
            r is Ok ==> final(self).running_backtests@ == old(self).running_backtests@.remove(*uuid),
            r is Err ==> final(self).running_backtests@ == old(self).running_backtests@,
            final(self).simbrokers@ == old(self).simbrokers@,
            final(self).uuid == old(self).uuid,
    {
        let ghost before = self.running_backtests@;
        let sent = self.send_backtest_cmd(uuid, TickstreamCommand::Stop);
        let r = self.settle_stop(uuid, sent);
        proof {
            match sent {
                Ok(()) => {
                    assert(self.running_backtests@ =~= before.remove(*uuid));
                },
                Err(CommandError::NoSuchBacktest) => {},
                Err(CommandError::ChannelClosed) => {},
                Err(CommandError::ChannelFull) => {},
            }
        }
        r
    }

    /// Answers one command.
    pub fn handle_command(&mut self, cmd: Command) -> (r: Response)
        ensures
            final(self).uuid == old(self).uuid,
            match cmd {
                Command::Ping => {
                    &&& r matches Response::Pong { args } && args@.len() == 1 && args@[0]@ == hyphenated_text(old(self).uuid)
                    &&& final(self).running_backtests@ == old(self).running_backtests@
                    &&& final(self).simbrokers@ == old(self).simbrokers@
                },
                Command::Type => {
                    &&& r matches Response::Info { info } && info@ == "Backtester"@
                    &&& final(self).running_backtests@ == old(self).running_backtests@
                    &&& final(self).simbrokers@ == old(self).simbrokers@
                },
                Command::StartBacktest { definition, control } => {
                    &&& final(self).simbrokers@ == old(self).simbrokers@
                    &&& match r {
                        Response::Info { info } => exists|id: u128| {
                            &&& info@ == hyphenated_text(id)
                            &&& !unknown_broker(definition, old(self).simbrokers@)
                            &&& !old(self).running_backtests@.contains_key(id)
                            &&& final(self).running_backtests@.dom() == old(self).running_backtests@.dom().insert(id)
                            &&& final(self).running_backtests@.remove(id) == old(self).running_backtests@
                            &&& handle_of(final(self).running_backtests@[id], definition, control)
                        },
                        Response::Error { status } => {
                            &&& final(self).running_backtests@ == old(self).running_backtests@
                            &&& (status@ == no_simbroker_text() <==> unknown_broker(definition, old(self).simbrokers@))
                            &&& (status@ == no_simbroker_text() || status@ == taken_id_text())
                            &&& status@ == taken_id_text() ==> old(self).running_backtests@.dom().len() > 0
                        },
                        _ => false,
                    }
                },
                Command::Kill => {
                    &&& r matches Response::Info { info } && info@ == kill_text()
                    &&& final(self).running_backtests@ == old(self).running_backtests@
                    &&& final(self).simbrokers@ == old(self).simbrokers@
                },
                Command::PauseBacktest { uuid } => {
                    &&& steer_effect(r, uuid, TickstreamCommand::Pause, old(self).running_backtests@, final(self).running_backtests@)
                    &&& final(self).simbrokers@ == old(self).simbrokers@
                },
                Command::ResumeBacktest { uuid } => {
                    &&& steer_effect(r, uuid, TickstreamCommand::Resume, old(self).running_backtests@, final(self).running_backtests@)
                    &&& final(self).simbrokers@ == old(self).simbrokers@
                },
                Command::StopBacktest { uuid } => {
                    &&& final(self).simbrokers@ == old(self).simbrokers@
                    &&& if old(self).running_backtests@.contains_key(uuid) {
                        (r is Success && final(self).running_backtests@ == old(self).running_backtests@.remove(uuid))
                            || (r matches Response::Error { status } && status@ == busy_text()
                            && final(self).running_backtests@ == old(self).running_backtests@)
                    } else {
                        r matches Response::Error { status } && status@ == no_backtest_text()
                            && final(self).running_backtests@ == old(self).running_backtests@
                    }
                },
                Command::ListBacktests => {
                    &&& r matches Response::Backtests { list } && lists(list@, old(self).running_backtests@)
                    &&& final(self).running_backtests@ == old(self).running_backtests@
                    &&& final(self).simbrokers@ == old(self).simbrokers@
                },
                Command::SpawnSimbroker { settings } => {
                    &&& final(self).running_backtests@ == old(self).running_backtests@
                    &&& match r {
                        Response::Info { info } => exists|id: u128| {
                            &&& info@ == hyphenated_text(id)
                            &&& !old(self).simbrokers@.contains_key(id)
                            &&& final(self).simbrokers@ == old(self).simbrokers@.insert(id, settings)
                        },
                        Response::Error { status } => {
                            &&& status@ == taken_broker_text()
                            &&& final(self).simbrokers@ == old(self).simbrokers@
                            &&& old(self).simbrokers@.dom().len() > 0
                        },
                        _ => false,
                    }
                },
                Command::ListSimbrokers => {
                    &&& r matches Response::Info { info } && exists|ids: Seq<u128>| {
                        &&& lists_ids(ids, old(self).simbrokers@)
                        &&& info@ == json_text_array(texts_of(ids))
                    }
                    &&& final(self).running_backtests@ == old(self).running_backtests@
                    &&& final(self).simbrokers@ == old(self).simbrokers@
                },
                Command::Other => {
                    &&& r matches Response::Error { status } && status@ == unknown_command_text()
                    &&& final(self).running_backtests@ == old(self).running_backtests@
                    &&& final(self).simbrokers@ == old(self).simbrokers@
                },
            },
    {
        proof {
            reveal_strlit("Backtester");
            reveal_strlit("No backtest with that UUID!");
            reveal_strlit("Backtester will self-destruct in 3 seconds.");
            reveal_strlit("Backtester doesn't recognize that command.");
            reveal_strlit("That backtest is not taking commands.");
        }
        match cmd {
            Command::Ping => {
                let mut args: Vec<String> = Vec::new();
                args.push(id_text(self.uuid));
                Response::Pong { args }
            },
            Command::Type => Response::Info { info: String::from_str("Backtester") },
            Command::StartBacktest { definition, control } => {
                match self.start_backtest(definition, control) {
                    Ok(id) => Response::Info { info: id_text(id) },
                    Err(status) => Response::Error { status },
                }
            },
            Command::Kill => Response::Info { info: String::from_str("Backtester will self-destruct in 3 seconds.") },
            Command::PauseBacktest { uuid } => self.steer(&uuid, TickstreamCommand::Pause),
            Command::ResumeBacktest { uuid } => self.steer(&uuid, TickstreamCommand::Resume),
            Command::StopBacktest { uuid } => {
                match self.stop_backtest(&uuid) {
                    Ok(()) => Response::Success,
                    Err(CommandError::ChannelFull) => Response::Error { status: String::from_str("That backtest is not taking commands.") },
                    Err(_) => Response::Error { status: String::from_str("No backtest with that UUID!") },
                }
            },
            Command::ListBacktests => Response::Backtests { list: self.list_backtests() },
            Command::SpawnSimbroker { settings } => {
                match self.init_simbroker(settings) {
                    Ok(id) => Response::Info { info: id_text(id) },
                    Err(status) => Response::Error { status },
                }
            },
            Command::ListSimbrokers => {
                let ids = self.list_simbrokers();
                let mut texts: Vec<String> = Vec::new();
                let mut i: usize = 0;
                while i < ids.len()
                    invariant
                        0 <= i <= ids.len(),
                        texts@.len() == i,
                        views_of(texts@) == texts_of(ids@.subrange(0, i as int)),
                    decreases ids.len() - i,
                {
                    let ghost before = texts@;
                    let t = id_text(ids[i]);
                    texts.push(t);
                    proof {
                        assert(texts@ == before.push(t));
                        let a = views_of(texts@);
                        let b = texts_of(ids@.subrange(0, i + 1));
                        assert forall|j: int| 0 <= j < a.len() implies a[j] == b[j] by {
                            if j < i {
                                assert(texts@[j] == before[j]);
                                assert(a[j] == views_of(before)[j]);
                                assert(b[j] == texts_of(ids@.subrange(0, i as int))[j]);
                            }
                        }
                        assert(a =~= b);
                    }
                    i = i + 1;
                }
                proof {
                    assert(ids@.subrange(0, i as int) =~= ids@);
                }
                Response::Info { info: quote_json_array(&texts) }
            },
            Command::Other => Response::Error { status: String::from_str("Backtester doesn't recognize that command.") },
        }
    }

    /// What may be shown of the backtest registered under `uuid`, if any.
    pub fn lookup_backtest(&self, uuid: &u128) -> (r: Option<SerializableBacktestHandle>)
        ensures
            r is None <==> !self.running_backtests@.contains_key(*uuid),
            r matches Some(h) ==> shows(h, *uuid, self.running_backtests@[*uuid]),
    {
        match self.running_backtests.get(uuid) {
            Some(h) => Some(SerializableBacktestHandle::from_handle(h, *uuid)),
            None => None,
        }
    }

    /// What may be shown of every running backtest, each once.
    pub fn list_backtests(&self) -> (r: Vec<SerializableBacktestHandle>)
        ensures
            lists(r@, self.running_backtests@),
    {
        let mut out: Vec<SerializableBacktestHandle> = Vec::new();
        let ghost v = vstd::std_specs::hash::spec_hash_map_iter(&self.running_backtests).remaining();
        for kv in it: self.running_backtests.iter()
            invariant
                out.len() == it.index(),
                it.seq() == v,
                forall|j: int| 0 <= j < out.len() ==> (#[trigger] out@[j]).uuid == *it.seq()[j].0 && shows(out@[j], *it.seq()[j].0, *it.seq()[j].1),
        {
            let (k, v) = kv;
            out.push(SerializableBacktestHandle::from_handle(v, *k));
        }
        proof {
            let m = self.running_backtests@;
            assert(v.len() == m.dom().len());
            assert forall|i: int| 0 <= i < out@.len() implies m.contains_key(#[trigger] out@[i].uuid) && shows(out@[i], out@[i].uuid, m[out@[i].uuid]) by {
                assert(m.contains_key(*v[i].0) && m[*v[i].0] == *v[i].1);
            }
            assert forall|k: u128| #[trigger] m.contains_key(k) implies exists|i: int| 0 <= i < out@.len() && #[trigger] out@[i].uuid == k by {
                assert(v.contains((&k, &m[k])));
                let i = choose|i: int| 0 <= i < v.len() && v[i] == (&k, &m[k]);
                assert(out@[i].uuid == k);
            }
        }
        out
    }
}

} // verus!

verus! {

/// After a Stop of `id` the registry no longer holds it: a lookup finds nothing,
/// a second Stop meets an unknown identifier, and no listing shows it.
pub proof fn lemma_stopped_is_gone(
    before: Map<u128, BacktestHandle>,
    id: u128,
    list: Seq<SerializableBacktestHandle>,
)
    requires
        lists(list, before.remove(id)),
    ensures
        !before.remove(id).contains_key(id),
        before.remove(id).remove(id) == before.remove(id),
        forall|i: int| 0 <= i < list.len() ==> (#[trigger] list[i]).uuid != id,
{
    assert(before.remove(id).remove(id) =~= before.remove(id));
    assert forall|i: int| 0 <= i < list.len() implies (#[trigger] list[i]).uuid != id by {
        assert(before.remove(id).contains_key(list[i].uuid));
    }
}

/// A Pause, Resume or Stop of an identifier that the registry does not hold
/// answers with the unknown-backtest error and changes nothing.
pub proof fn lemma_unknown_id_changes_nothing(
    before: Map<u128, BacktestHandle>,
    after: Map<u128, BacktestHandle>,
    id: u128,
    cmd: TickstreamCommand,
    r: Response,
)
    requires
        !before.contains_key(id),
        steer_effect(r, id, cmd, before, after),
    ensures
        after == before,
        r matches Response::Error { status } && status@ == no_backtest_text(),
        before.remove(id) == before,
{
    assert(before.remove(id) =~= before);
}

/// Steering or stopping one backtest leaves every other registered backtest as
/// it was.
pub proof fn lemma_other_jobs_untouched(
    before: Map<u128, BacktestHandle>,
    after: Map<u128, BacktestHandle>,
    id: u128,
    other: u128,
    cmd: TickstreamCommand,
    r: Response,
)
    requires
        other != id,
        before.contains_key(other),
        steer_effect(r, id, cmd, before, after),
    ensures
        after.contains_key(other),
        after[other] == before[other],
        before.remove(id).contains_key(other),
        before.remove(id)[other] == before[other],
{
    if before.contains_key(id) && queued(before, after, id, cmd) {
        assert(after.remove(id).contains_key(other));
        assert(after.remove(id)[other] == before.remove(id)[other]);
    }
}

} // verus!

verus! {

/// The state of a registered backtest's stream once its thread has taken every
/// command queued on its channel, in order: a stream starts paused.
pub open spec fn job_stream_state(h: BacktestHandle) -> StreamState {
    state_after(StreamState::Paused, sent_on(h.handle))
}

/// Taking one more command after a run of them.
pub proof fn lemma_state_after_push(s: StreamState, cmds: Seq<TickstreamCommand>, c: TickstreamCommand)
    ensures
        state_after(s, cmds.push(c)) == next_state(state_after(s, cmds), c),
    decreases cmds.len(),
{
    if cmds.len() == 0 {
        assert(cmds.push(c).drop_first() =~= Seq::<TickstreamCommand>::empty());
        assert(cmds.push(c)[0] == c);
        assert(state_after(next_state(s, c), Seq::<TickstreamCommand>::empty()) == next_state(s, c));
        assert(state_after(s, cmds) == s);
    } else {
        assert(cmds.push(c).drop_first() =~= cmds.drop_first().push(c));
        assert(cmds.push(c)[0] == cmds[0]);
        lemma_state_after_push(next_state(s, cmds[0]), cmds.drop_first(), c);
    }
}

/// A backtest registered by a start with a channel on which no Resume was queued
/// sends nothing: its stream is never found delivering.
pub proof fn lemma_started_job_waits(
    after: Map<u128, BacktestHandle>,
    id: u128,
    definition: BacktestDefinition,
    control: SyncSender<TickstreamCommand>,
)
    requires
        after.contains_key(id),
        handle_of(after[id], definition, control),
        forall|i: int| 0 <= i < sent_on(control).len() ==> sent_on(control)[i] != TickstreamCommand::Resume,
    ensures
        action_of(job_stream_state(after[id])) != PolicyAction::Deliver,
{
    lemma_nothing_before_resume(sent_on(control));
}

/// Once a Resume is queued on the channel of a registered backtest that was only
/// ever paused, its stream runs; limited to `n` ticks on a source of at least `n`
/// ticks, it then sends exactly the first `n`, in the order of the source, and ends.
pub proof fn lemma_resumed_job_sends_n(
    before: Map<u128, BacktestHandle>,
    after: Map<u128, BacktestHandle>,
    id: u128,
    n: usize,
    ticks: Seq<Tick>,
)
    requires
        queued(before, after, id, TickstreamCommand::Resume),
        forall|i: int| 0 <= i < sent_on(before[id].handle).len() ==> sent_on(before[id].handle)[i] == TickstreamCommand::Pause,
        n >= 1,
        ticks.len() >= n,
        forall|i: int, j: int| 0 <= i <= j < ticks.len() ==> ticks[i].timestamp <= ticks[j].timestamp,
    ensures
        action_of(job_stream_state(before[id])) == PolicyAction::WaitForCommand,
        job_stream_state(after[id]) == StreamState::Running,
        deliveries(Some(n), None, ticks, 0) == ticks.subrange(0, n as int),
        first_exit(Some(n), None, ticks, 0, 0) == n - 1,
        forall|i: int, j: int|
            0 <= i <= j < n ==> (#[trigger] deliveries(Some(n), None, ticks, 0)[i]).timestamp
                <= (#[trigger] deliveries(Some(n), None, ticks, 0)[j]).timestamp,
{
    let h = sent_on(before[id].handle);
    lemma_pause_then_resume(n, h, ticks);
    lemma_state_after_push(StreamState::Paused, h, TickstreamCommand::Resume);
    lemma_exit_by_count(n, ticks);
}

/// Once a Resume is queued on the channel of a registered backtest that was only
/// ever paused, its stream runs; limited to timestamp `m`, it sends a prefix of its
/// source in which every tick but the last is before `m`, and where the source
/// reaches `m` the last tick sent is the first one at or after `m`.
pub proof fn lemma_resumed_job_stops_at_timestamp(
    before: Map<u128, BacktestHandle>,
    after: Map<u128, BacktestHandle>,
    id: u128,
    m: u64,
    ticks: Seq<Tick>,
)
    requires
        queued(before, after, id, TickstreamCommand::Resume),
        forall|i: int| 0 <= i < sent_on(before[id].handle).len() ==> sent_on(before[id].handle)[i] == TickstreamCommand::Pause,
    ensures
        job_stream_state(after[id]) == StreamState::Running,
        ({
            let d = deliveries(None, Some(m), ticks, 0);
            &&& d == ticks.subrange(0, d.len() as int)
            &&& forall|i: int| 0 <= i < d.len() - 1 ==> #[trigger] d[i].timestamp < m
            &&& (exists|j: int| 0 <= j < ticks.len() && #[trigger] ticks[j].timestamp >= m) ==> d.len() > 0
                && d.last().timestamp >= m
        }),
{
    let h = sent_on(before[id].handle);
    lemma_pause_then_resume(1, h, seq![Tick { bid: 0, ask: 0, timestamp: 0 }]);
    lemma_state_after_push(StreamState::Paused, h, TickstreamCommand::Resume);
    lemma_exit_by_timestamp(m, ticks);
}

} // verus!
