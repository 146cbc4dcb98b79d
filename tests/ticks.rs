use backtester::decimal::write_decimal;
use backtester::storage::{csv_to_tick_table, init_hist_data_table, init_tick_table, reset_db};
use backtester::tick::{SymbolTick, Tick};

#[test]
fn null_tick_is_all_zero() {
    assert_eq!(Tick::null(), Tick { bid: 0, ask: 0, timestamp: 0 });
}

#[test]
fn decimal_text() {
    assert_eq!(write_decimal(0), "0");
    assert_eq!(write_decimal(7), "7");
    assert_eq!(write_decimal(1476650327123), "1476650327123");
    assert_eq!(write_decimal(u64::MAX), "18446744073709551615");
}

#[test]
fn csv_row_text() {
    let t = Tick { bid: 123134, ask: 123156, timestamp: 1476650327123 };
    assert_eq!(t.to_csv_row(), "1476650327123, 123134, 123156\n");
}

#[test]
fn csv_row_parses() {
    let t = Tick::from_csv_string("1476650327123, 123134, 123156\n");
    assert_eq!(t, Some(Tick { bid: 123134, ask: 123156, timestamp: 1476650327123 }));
    let u = Tick::from_csv_string("5, 6, 7");
    assert_eq!(u, Some(Tick { bid: 6, ask: 7, timestamp: 5 }));
}

#[test]
fn csv_row_rejects_malformed() {
    assert_eq!(Tick::from_csv_string(""), None);
    assert_eq!(Tick::from_csv_string("1, 2"), None);
    assert_eq!(Tick::from_csv_string("1,2,3"), None);
    assert_eq!(Tick::from_csv_string("1, x, 3"), None);
    assert_eq!(Tick::from_csv_string("1, 2, \n"), None);
    assert_eq!(Tick::from_csv_string("18446744073709551616, 2, 3"), None);
}

#[test]
fn csv_round_trip() {
    let cases = [
        Tick { bid: 0, ask: 0, timestamp: 0 },
        Tick { bid: 1, ask: 99, timestamp: 10 },
        Tick { bid: usize::MAX, ask: 12345, timestamp: u64::MAX },
    ];
    for t in cases.iter() {
        assert_eq!(Tick::from_csv_string(&t.to_csv_row()), Some(*t));
    }
}

#[test]
fn json_text() {
    let t = Tick { bid: 1, ask: 2, timestamp: 3 };
    assert_eq!(t.to_json_string("TEST".to_string()), "{\"bid\":1,\"ask\":2,\"timestamp\":3,\"symbol\":\"TEST\"}");
    let q = Tick { bid: 5, ask: 4, timestamp: 9 };
    assert_eq!(q.to_json_string("a\"b".to_string()), "{\"bid\":5,\"ask\":4,\"timestamp\":9,\"symbol\":\"a\\\"b\"}");
}

#[test]
fn json_round_trip() {
    let cases = [
        Tick { bid: 0, ask: 0, timestamp: 0 },
        Tick { bid: 123134, ask: 123156, timestamp: 1476650327123 },
        Tick { bid: usize::MAX, ask: 1, timestamp: u64::MAX },
    ];
    for t in cases.iter() {
        let s = t.to_json_string("EURUSD".to_string());
        assert_eq!(Tick::from_json_string(s.clone()), Some(*t));
        let st = SymbolTick::from_json_string(s).unwrap();
        assert_eq!(st, SymbolTick::from_tick(*t, "EURUSD".to_string()));
    }
}

#[test]
fn json_rejects_bad_input() {
    assert_eq!(Tick::from_json_string("not json".to_string()), None);
    assert_eq!(Tick::from_json_string("{\"bid\": 1, \"ask\": 2}".to_string()), None);
    assert_eq!(Tick::from_json_string("{\"bid\": 1.5, \"ask\": 2, \"timestamp\": 3}".to_string()), None);
    assert_eq!(
        Tick::from_json_string("{\"timestamp\": 3, \"ask\": 2, \"bid\": 1}".to_string()),
        Some(Tick { bid: 1, ask: 2, timestamp: 3 })
    );
    assert_eq!(SymbolTick::from_json_string("{\"bid\": 1, \"ask\": 2, \"timestamp\": 3}".to_string()), None);
}

#[test]
fn members_build_a_tick() {
    assert_eq!(Tick::from_members(Some(1), Some(2), Some(3)), Some(Tick { bid: 1, ask: 2, timestamp: 3 }));
    assert_eq!(Tick::from_members(None, Some(2), Some(3)), None);
    assert_eq!(Tick::from_members(Some(1), Some(2), None), None);
}

#[test]
fn spread_and_mid() {
    let t = Tick { bid: 105, ask: 100, timestamp: 0 };
    assert_eq!(t.spread(), 5);
    assert_eq!(t.mid(), 102);
    let u = Tick { bid: 7, ask: 7, timestamp: 0 };
    assert_eq!(u.spread(), 0);
    assert_eq!(u.mid(), 7);
}

#[test]
fn symbol_tick_conversions() {
    let t = Tick { bid: 3, ask: 2, timestamp: 1 };
    let st = SymbolTick::from_tick(t, "X".to_string());
    assert_eq!(st.symbol, "X");
    assert_eq!(st.bid, 3);
    assert_eq!(Tick::from_symboltick(st), t);
}

#[test]
fn insert_statements() {
    let t = Tick { bid: 10, ask: 9, timestamp: 42 };
    assert_eq!(t.store("EURUSD"), "INSERT INTO ticks_EURUSD (tick_time, bid, ask) VALUES (42, 10, 9);");
    assert_eq!(t.store_table("hist"), "INSERT INTO hist (tick_time, bid, ask) VALUES (42, 10, 9);");
}

#[test]
fn table_statements() {
    assert_eq!(
        csv_to_tick_table("/data/t.csv", "ticks_X"),
        "COPY ticks_X(tick_time, bid, ask) FROM '/data/t.csv' WITH (FORMAT csv, DELIMITER ',')"
    );
    assert_eq!(
        csv_to_tick_table("/data/o'brien.csv", "t"),
        "COPY t(tick_time, bid, ask) FROM '/data/o''brien.csv' WITH (FORMAT csv, DELIMITER ',')"
    );
    let q = init_tick_table("EURUSD", "trader");
    assert_eq!(q.len(), 2);
    assert!(q[0].starts_with("CREATE TABLE IF NOT EXISTS ticks_EURUSD\n"));
    assert!(q[0].ends_with("OIDS=FALSE\n    );"));
    assert_eq!(q[1], "ALTER TABLE ticks_EURUSD\n      OWNER TO trader;");
    let h = init_hist_data_table("hist", "trader");
    assert!(h[0].starts_with("CREATE TABLE IF NOT EXISTS hist\n"));
    assert_eq!(h[1], "ALTER TABLE hist\n      OWNER TO trader;");
    assert_eq!(
        reset_db("u"),
        "DROP SCHEMA public CASCADE;\n        CREATE SCHEMA public AUTHORIZATION u;\n        ALTER SCHEMA public OWNER TO u;\n        GRANT ALL ON SCHEMA public TO u;"
    );
}
