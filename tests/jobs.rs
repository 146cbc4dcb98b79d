use std::sync::mpsc;

use backtester::backtest::{check_early_exit, BacktestDefinition, BacktestType, DataDest, DataSource};
use backtester::backtester::{Backtester, Command, Response};
use backtester::control::{CommandError, PolicyAction, StreamState, TickstreamCommand};
use backtester::generator::{at_or_after, resolve_data_source, RandomReader, TickGenerator};
use backtester::job::JobState;
use backtester::tick::Tick;

fn definition(max_tick_n: Option<usize>, max_timestamp: Option<u64>, dest: DataDest) -> BacktestDefinition {
    BacktestDefinition {
        start_time: None,
        max_timestamp,
        max_tick_n,
        symbol: "TEST".to_string(),
        backtest_type: BacktestType::Fast { delay_ms: 0 },
        data_source: DataSource::Random,
        data_dest: dest,
        broker_settings: Vec::new(),
    }
}

/// Runs a registered job on the synthetic source as its thread would: takes the
/// commands waiting on its channel, then sends ticks while it runs.
fn drive(def: &BacktestDefinition, rx: &mpsc::Receiver<TickstreamCommand>, supply: usize) -> Vec<Tick> {
    let mut job = JobState::new(def);
    while let Ok(c) = rx.try_recv() {
        job.command(c);
    }
    if job.next_action() != PolicyAction::Deliver {
        return Vec::new();
    }
    let mut reader = RandomReader::new(def.start_time);
    let ticks = reader.take_ticks(supply);
    job.run(&ticks)
}

fn redis_dest(channel: &str) -> DataDest {
    DataDest::RedisChannel { host: "127.0.0.1".to_string(), channel: channel.to_string() }
}

#[test]
fn backtest_n_early_exit() {
    let mut bt = Backtester::new(1);
    let def = definition(Some(10), None, redis_dest("test1_ii"));
    let (tx, rx) = mpsc::sync_channel::<TickstreamCommand>(5);
    let uuid = bt.start_backtest(def.clone(), tx).unwrap();
    // backtest starts paused so resume it
    let _ = bt.send_backtest_cmd(&uuid, TickstreamCommand::Resume);
    let res = drive(&def, &rx, 1000).into_iter().take(10).collect::<Vec<_>>();
    assert_eq!(res.len(), 10);
}

#[test]
fn backtest_timestamp_early_exit() {
    let mut bt = Backtester::new(2);
    let def = definition(None, Some(8), redis_dest("test2_ii"));
    let (tx, rx) = mpsc::sync_channel::<TickstreamCommand>(5);
    let uuid = bt.start_backtest(def.clone(), tx).expect("start_backtest() returned Err!");
    // backtest starts paused so resume it
    bt.send_backtest_cmd(&uuid, TickstreamCommand::Resume).expect("no handle exists for the backtest!");
    let res = drive(&def, &rx, 1000).into_iter().take(8).collect::<Vec<_>>();
    assert_eq!(res.len(), 8);
}

#[test]
fn count_limit_sends_exactly_n() {
    let def = definition(Some(10), None, DataDest::Null);
    let mut job = JobState::new(&def);
    job.command(TickstreamCommand::Resume);
    let ticks = RandomReader::new(None).take_ticks(1000);
    let out = job.run(&ticks);
    assert_eq!(out.len(), 10);
    assert_eq!(out[..], ticks[..10]);
    assert_eq!(job.state, StreamState::Ended);
    assert_eq!(job.next_action(), PolicyAction::Finish);
}

#[test]
fn timestamp_limit_includes_the_trigger() {
    let def = definition(None, Some(8), DataDest::Null);
    let mut job = JobState::new(&def);
    job.command(TickstreamCommand::Resume);
    let ticks = RandomReader::new(None).take_ticks(100);
    let out = job.run(&ticks);
    assert_eq!(out.len(), 9);
    assert!(out[..8].iter().all(|t| t.timestamp < 8));
    assert_eq!(out[8].timestamp, 8);
    assert_eq!(job.state, StreamState::Ended);
}

#[test]
fn first_limit_reached_wins() {
    let def = definition(Some(3), Some(1), DataDest::Null);
    let mut job = JobState::new(&def);
    job.command(TickstreamCommand::Resume);
    let ticks = RandomReader::new(None).take_ticks(10);
    assert_eq!(job.run(&ticks).len(), 2);
}

#[test]
fn exhausted_source_leaves_stream_running() {
    let def = definition(Some(50), None, DataDest::Null);
    let mut job = JobState::new(&def);
    job.command(TickstreamCommand::Resume);
    let ticks = RandomReader::new(Some(5)).take_ticks(4);
    assert_eq!(job.run(&ticks).len(), 4);
    assert_eq!(job.state, StreamState::Running);
    assert_eq!(job.source_ended(), TickstreamCommand::Stop);
    assert_eq!(job.state, StreamState::Ended);
}

#[test]
fn paused_until_resumed() {
    let def = definition(Some(5), None, DataDest::Null);
    let mut job = JobState::new(&def);
    assert_eq!(job.next_action(), PolicyAction::WaitForCommand);
    job.command(TickstreamCommand::Pause);
    job.command(TickstreamCommand::Pause);
    assert_eq!(job.next_action(), PolicyAction::WaitForCommand);
    job.command(TickstreamCommand::Resume);
    job.command(TickstreamCommand::Resume);
    assert_eq!(job.next_action(), PolicyAction::Deliver);
    let ticks = RandomReader::new(None).take_ticks(20);
    let out = job.run(&ticks);
    assert_eq!(out.len(), 5);
    assert!(out.windows(2).all(|w| w[0].timestamp <= w[1].timestamp));
}

#[test]
fn stop_is_final() {
    assert_eq!(StreamState::Paused.apply(TickstreamCommand::Stop), StreamState::Ended);
    assert_eq!(StreamState::Running.apply(TickstreamCommand::Stop), StreamState::Ended);
    assert_eq!(StreamState::Ended.apply(TickstreamCommand::Resume), StreamState::Ended);
    assert_eq!(StreamState::Running.apply(TickstreamCommand::Pause), StreamState::Paused);
}

#[test]
fn pauses_follow_the_policy() {
    let mut def = definition(None, None, DataDest::Null);
    def.backtest_type = BacktestType::Fast { delay_ms: 25 };
    let job = JobState::new(&def);
    assert_eq!(job.pause_before(&Tick { bid: 1, ask: 1, timestamp: 100 }), 25);

    def.backtest_type = BacktestType::Live;
    let mut live = JobState::new(&def);
    live.command(TickstreamCommand::Resume);
    let first = Tick { bid: 1, ask: 1, timestamp: 1000 };
    assert_eq!(live.pause_before(&first), 0);
    assert!(!live.deliver(&first));
    assert_eq!(live.pause_before(&Tick { bid: 1, ask: 1, timestamp: 1250 }), 250);
    assert_eq!(live.pause_before(&Tick { bid: 1, ask: 1, timestamp: 900 }), 0);
}

#[test]
fn early_exit_rule() {
    let t = Tick { bid: 1, ask: 1, timestamp: 7 };
    assert!(!check_early_exit(&t, &definition(None, None, DataDest::Null), 1000));
    assert!(check_early_exit(&t, &definition(Some(3), None, DataDest::Null), 3));
    assert!(!check_early_exit(&t, &definition(Some(3), None, DataDest::Null), 2));
    assert!(check_early_exit(&t, &definition(None, Some(7), DataDest::Null), 1));
    assert!(!check_early_exit(&t, &definition(None, Some(8), DataDest::Null), 1));
}

#[test]
fn random_ticks_are_consecutive() {
    let mut r = RandomReader::new(Some(40));
    let ticks = r.take_ticks(5);
    assert_eq!(ticks.len(), 5);
    for (i, t) in ticks.iter().enumerate() {
        assert_eq!(t.timestamp, 40 + i as u64);
        assert!(t.ask <= t.bid);
    }
    let mut end = RandomReader::new(Some(u64::MAX - 1));
    assert_eq!(end.take_ticks(3).len(), 1);
    assert_eq!(end.next_tick(), None);
}

#[test]
fn ping_answers_with_own_id() {
    let mut bt = Backtester::new(0x0123456789abcdef0123456789abcdef);
    match bt.handle_command(Command::Ping) {
        Response::Pong { args } => assert_eq!(args, vec!["01234567-89ab-cdef-0123-456789abcdef".to_string()]),
        _ => panic!("expected a pong"),
    }
    let mut low = Backtester::new(1);
    match low.handle_command(Command::Ping) {
        Response::Pong { args } => assert_eq!(args, vec!["00000000-0000-0000-0000-000000000001".to_string()]),
        _ => panic!("expected a pong"),
    }
}

#[test]
fn unknown_ids_are_refused() {
    let mut bt = Backtester::new(3);
    let (tx, _rx) = mpsc::sync_channel::<TickstreamCommand>(5);
    let kept = bt.start_backtest(definition(None, None, DataDest::Console), tx).unwrap();
    let stranger = kept.wrapping_add(1);
    for cmd in [
        Command::PauseBacktest { uuid: stranger },
        Command::ResumeBacktest { uuid: stranger },
        Command::StopBacktest { uuid: stranger },
    ] {
        match bt.handle_command(cmd) {
            Response::Error { status } => assert_eq!(status, "No backtest with that UUID!"),
            _ => panic!("expected an error"),
        }
    }
    assert_eq!(bt.list_backtests().len(), 1);
    assert_eq!(bt.send_backtest_cmd(&stranger, TickstreamCommand::Pause), Err(CommandError::NoSuchBacktest));
}

#[test]
fn stop_deregisters() {
    let mut bt = Backtester::new(4);
    let (tx, rx) = mpsc::sync_channel::<TickstreamCommand>(5);
    let id = bt.start_backtest(definition(None, None, DataDest::Null), tx).unwrap();
    let (tx2, rx2) = mpsc::sync_channel::<TickstreamCommand>(5);
    let other = bt.start_backtest(definition(None, None, DataDest::Console), tx2).unwrap();
    assert!(matches!(bt.handle_command(Command::StopBacktest { uuid: id }), Response::Success));
    assert_eq!(rx.try_recv(), Ok(TickstreamCommand::Stop));
    assert!(bt.lookup_backtest(&id).is_none());
    assert_eq!(bt.lookup_backtest(&other).unwrap().symbol, "TEST");
    match bt.handle_command(Command::StopBacktest { uuid: id }) {
        Response::Error { status } => assert_eq!(status, "No backtest with that UUID!"),
        _ => panic!("expected an error"),
    }
    match bt.handle_command(Command::ListBacktests) {
        Response::Backtests { list } => {
            assert_eq!(list.len(), 1);
            assert_eq!(list[0].uuid, other);
            assert_eq!(list[0].symbol, "TEST");
        },
        _ => panic!("expected a list"),
    }
    assert!(rx2.try_recv().is_err());
}

#[test]
fn jobs_are_steered_independently() {
    let mut bt = Backtester::new(5);
    let (tx_a, rx_a) = mpsc::sync_channel::<TickstreamCommand>(5);
    let (tx_b, rx_b) = mpsc::sync_channel::<TickstreamCommand>(5);
    let mut def_b = definition(Some(4), None, DataDest::Console);
    def_b.symbol = "OTHER".to_string();
    let def_a = definition(Some(3), None, DataDest::Null);
    let a = bt.start_backtest(def_a.clone(), tx_a).unwrap();
    let b = bt.start_backtest(def_b.clone(), tx_b).unwrap();
    assert!(matches!(bt.handle_command(Command::ResumeBacktest { uuid: a }), Response::Success));
    assert!(matches!(bt.handle_command(Command::PauseBacktest { uuid: b }), Response::Success));
    assert_eq!(drive(&def_a, &rx_a, 50).len(), 3);
    assert_eq!(drive(&def_b, &rx_b, 50).len(), 0);
    assert!(matches!(bt.handle_command(Command::StopBacktest { uuid: a }), Response::Success));
    assert!(matches!(bt.handle_command(Command::ResumeBacktest { uuid: b }), Response::Success));
    assert_eq!(drive(&def_b, &rx_b, 50).len(), 4);
}

#[test]
fn ended_job_is_dropped_when_steered() {
    let mut bt = Backtester::new(6);
    let (tx, rx) = mpsc::sync_channel::<TickstreamCommand>(5);
    let id = bt.start_backtest(definition(None, None, DataDest::Null), tx).unwrap();
    drop(rx);
    assert_eq!(bt.send_backtest_cmd(&id, TickstreamCommand::Pause), Err(CommandError::ChannelClosed));
    match bt.handle_command(Command::PauseBacktest { uuid: id }) {
        Response::Error { status } => assert_eq!(status, "That backtest has already ended."),
        _ => panic!("expected an error"),
    }
    assert!(bt.list_backtests().is_empty());
}

#[test]
fn simbroker_destination_must_exist() {
    let mut bt = Backtester::new(7);
    let (tx, _rx) = mpsc::sync_channel::<TickstreamCommand>(5);
    match bt.handle_command(Command::StartBacktest { definition: definition(None, None, DataDest::SimBroker { uuid: 99 }), control: tx }) {
        Response::Error { status } => assert_eq!(status, "No SimBroker running with that Uuid!"),
        _ => panic!("expected an error"),
    }
    assert!(bt.list_backtests().is_empty());
    let broker = match bt.handle_command(Command::SpawnSimbroker { settings: vec![("a".to_string(), "b".to_string())] }) {
        Response::Info { info } => info,
        _ => panic!("expected an identifier"),
    };
    assert_eq!(broker.len(), 36);
    let ids = bt.list_simbrokers();
    assert_eq!(ids.len(), 1);
    assert_eq!(uuid::Uuid::from_u128(ids[0]).hyphenated().to_string(), broker);
    match bt.handle_command(Command::ListSimbrokers) {
        Response::Info { info } => assert_eq!(info, format!("[\"{}\"]", broker)),
        _ => panic!("expected a list"),
    }
    let (tx2, _rx2) = mpsc::sync_channel::<TickstreamCommand>(5);
    match bt.handle_command(Command::StartBacktest { definition: definition(None, None, DataDest::SimBroker { uuid: ids[0] }), control: tx2 }) {
        Response::Info { info } => assert_eq!(info.len(), 36),
        _ => panic!("expected an identifier"),
    }
    assert_eq!(bt.list_backtests().len(), 1);
}

#[test]
fn fixed_answers() {
    let mut bt = Backtester::new(8);
    match bt.handle_command(Command::Type) {
        Response::Info { info } => assert_eq!(info, "Backtester"),
        _ => panic!("expected info"),
    }
    match bt.handle_command(Command::Kill) {
        Response::Info { info } => assert_eq!(info, "Backtester will self-destruct in 3 seconds."),
        _ => panic!("expected info"),
    }
    match bt.handle_command(Command::Other) {
        Response::Error { status } => assert_eq!(status, "Backtester doesn't recognize that command."),
        _ => panic!("expected an error"),
    }
    match bt.handle_command(Command::ListSimbrokers) {
        Response::Info { info } => assert_eq!(info, "[]"),
        _ => panic!("expected a list"),
    }
}

#[test]
fn sources_are_resolved() {
    match resolve_data_source(&DataSource::Flatfile, "EURUSD".to_string(), Some(5)) {
        TickGenerator::Flatfile { symbol, start_time } => {
            assert_eq!(symbol, "EURUSD");
            assert_eq!(start_time, Some(5));
        },
        _ => panic!("expected a flat file"),
    }
    let src = DataSource::RedisChannel { host: "h".to_string(), channel: "c".to_string() };
    match resolve_data_source(&src, "X".to_string(), None) {
        TickGenerator::RedisChannel { symbol, host, channel } => {
            assert_eq!((symbol.as_str(), host.as_str(), channel.as_str()), ("X", "h", "c"));
        },
        _ => panic!("expected a channel"),
    }
    assert!(matches!(resolve_data_source(&DataSource::Postgres, "X".to_string(), None), TickGenerator::Postgres { .. }));
    match resolve_data_source(&DataSource::Random, "X".to_string(), Some(77)) {
        TickGenerator::Random(mut reader) => assert_eq!(reader.next_tick().unwrap().timestamp, 77),
        _ => panic!("expected the synthetic source"),
    }
}

#[test]
fn full_channel_is_reported() {
    let mut bt = Backtester::new(9);
    let (tx, rx) = mpsc::sync_channel::<TickstreamCommand>(5);
    let id = bt.start_backtest(definition(None, None, DataDest::Null), tx).unwrap();
    for _ in 0..5 {
        assert_eq!(bt.send_backtest_cmd(&id, TickstreamCommand::Pause), Ok(()));
    }
    assert_eq!(bt.send_backtest_cmd(&id, TickstreamCommand::Pause), Err(CommandError::ChannelFull));
    match bt.handle_command(Command::StopBacktest { uuid: id }) {
        Response::Error { status } => assert_eq!(status, "That backtest is not taking commands."),
        _ => panic!("expected an error"),
    }
    assert_eq!(bt.list_backtests().len(), 1);
    assert_eq!(rx.try_recv(), Ok(TickstreamCommand::Pause));
    assert!(matches!(bt.handle_command(Command::StopBacktest { uuid: id }), Response::Success));
    assert!(bt.list_backtests().is_empty());
}

#[test]
fn replay_start_filter() {
    let t = Tick { bid: 2, ask: 1, timestamp: 50 };
    assert!(at_or_after(&t, None));
    assert!(at_or_after(&t, Some(50)));
    assert!(at_or_after(&t, Some(49)));
    assert!(!at_or_after(&t, Some(51)));
}

#[test]
fn registration_under_a_given_id() {
    let mut bt = Backtester::new(10);
    let (tx, rx) = mpsc::sync_channel::<TickstreamCommand>(5);
    assert_eq!(bt.register_backtest(42, definition(None, None, DataDest::Null), tx), Ok(42));
    assert_eq!(bt.lookup_backtest(&42).unwrap().uuid, 42);
    let (tx2, _rx2) = mpsc::sync_channel::<TickstreamCommand>(5);
    assert_eq!(
        bt.register_backtest(42, definition(None, None, DataDest::Console), tx2),
        Err("The drawn backtest identifier is already in use.".to_string())
    );
    assert_eq!(bt.list_backtests().len(), 1);
    assert_eq!(bt.send_backtest_cmd(&42, TickstreamCommand::Resume), Ok(()));
    assert_eq!(rx.try_recv(), Ok(TickstreamCommand::Resume));
}

#[test]
fn broker_registration_under_a_given_id() {
    let mut bt = Backtester::new(11);
    assert!(bt.register_simbroker(7, vec![("k".to_string(), "v".to_string())]));
    assert!(!bt.register_simbroker(7, Vec::new()));
    assert_eq!(bt.list_simbrokers(), vec![7]);
    assert_eq!(bt.simbrokers.get(&7).unwrap().len(), 1);
    let fresh = bt.init_simbroker(Vec::new()).unwrap();
    assert_ne!(fresh, 7);
    assert_eq!(bt.list_simbrokers().len(), 2);
}

#[test]
fn stop_is_settled_by_the_send() {
    let mut bt = Backtester::new(12);
    for (i, sent) in [
        Ok(()),
        Err(CommandError::ChannelClosed),
        Err(CommandError::ChannelFull),
        Err(CommandError::NoSuchBacktest),
    ]
    .into_iter()
    .enumerate()
    {
        let id = 100 + i as u128;
        let (tx, _rx) = mpsc::sync_channel::<TickstreamCommand>(5);
        bt.register_backtest(id, definition(None, None, DataDest::Null), tx).unwrap();
        let r = bt.settle_stop(&id, sent);
        match sent {
            Ok(()) | Err(CommandError::ChannelClosed) => {
                assert_eq!(r, Ok(()));
                assert!(bt.lookup_backtest(&id).is_none());
            },
            _ => {
                assert_eq!(r, sent);
                assert!(bt.lookup_backtest(&id).is_some());
            },
        }
    }
}

#[test]
fn steering_is_answered_by_the_send() {
    let mut bt = Backtester::new(13);
    let (tx, _rx) = mpsc::sync_channel::<TickstreamCommand>(5);
    bt.register_backtest(1, definition(None, None, DataDest::Null), tx).unwrap();
    assert!(matches!(bt.steer_response(&1, Ok(())), Response::Success));
    match bt.steer_response(&1, Err(CommandError::ChannelFull)) {
        Response::Error { status } => assert_eq!(status, "That backtest is not taking commands."),
        _ => panic!("expected an error"),
    }
    match bt.steer_response(&1, Err(CommandError::NoSuchBacktest)) {
        Response::Error { status } => assert_eq!(status, "No backtest with that UUID!"),
        _ => panic!("expected an error"),
    }
    assert!(bt.lookup_backtest(&1).is_some());
    match bt.steer_response(&1, Err(CommandError::ChannelClosed)) {
        Response::Error { status } => assert_eq!(status, "That backtest has already ended."),
        _ => panic!("expected an error"),
    }
    assert!(bt.lookup_backtest(&1).is_none());
}
