use scylla_bridge::ascii::{push_decimal, push_digits, push_hex};
use scylla_bridge::be::{modulus, push_be, read_be, signed_of, unsigned_of};
use scylla_bridge::cluster::{
    Auth, ClusterConfig, Compression, ConnectError, ConnectionOptions, Consistency,
    ExecutionProfile, KeyspaceOrOptions, ScyllaCluster, SerialConsistency, Ssl, VerifyMode,
};
use scylla_bridge::session::{plan, should_prepare, ExecutionPlan, QueryOptions, StatementKind};
use scylla_bridge::topology::{
    get_keyspace_info, NetworkTopologyStrategy, Other, ScyllaKeyspace, ScyllaMaterializedView,
    ScyllaStrategy, ScyllaTable, SimpleStrategy, Strategy, StrategyData,
};
use scylla_bridge::types::decimal::Decimal;
use scylla_bridge::types::duration::Duration;
use scylla_bridge::types::uuid::Uuid;
use scylla_bridge::types::varint::Varint;
use scylla_bridge::vint::{push_vint, read_vint};
use scylla_bridge::wire::{push_cell, push_int, push_null, take_cell, take_int};

#[test]
fn decimal_to_string() {
    assert_eq!(Decimal::new(vec![0x01, 0x02], 3).to_string(), "0102e3");
    assert_eq!(Decimal::new(vec![0xff, 0x0a], -12).to_string(), "ff0ae-12");
    assert_eq!(Decimal::new(vec![], 0).to_string(), "e0");
    assert_eq!(Decimal::new(vec![0], i32::MIN).to_string(), "00e-2147483648");
    assert_eq!(Decimal::new(vec![0x9f], i32::MAX).to_string(), "9fe2147483647");
}

#[test]
fn decimal_keeps_its_parts() {
    let d = Decimal::new(vec![0, 0, 7], -1);
    assert_eq!(d.int_val(), &vec![0, 0, 7]);
    assert_eq!(d.scale(), -1);
}

#[test]
fn duration_to_string() {
    assert_eq!(Duration::new(1, 2, 3).to_string(), "1 months, 2 days, 3 nanoseconds");
    assert_eq!(Duration::new(0, 0, 0).to_string(), "0 months, 0 days, 0 nanoseconds");
    assert_eq!(
        Duration::new(-12, 100, -9_000_000_000).to_string(),
        "-12 months, 100 days, -9000000000 nanoseconds"
    );
    assert_eq!(
        Duration::new(i32::MIN, i32::MAX, i64::MIN).to_string(),
        "-2147483648 months, 2147483647 days, -9223372036854775808 nanoseconds"
    );
}

#[test]
fn duration_new_keeps_its_parts() {
    let d = Duration::new(1, -2, 3);
    assert_eq!(d.months, 1);
    assert_eq!(d.days, -2);
    assert_eq!(d.nanoseconds, 3);
}

#[test]
fn varint_keeps_its_bytes() {
    assert_eq!(Varint::new_varint(vec![0, 0, 1]).bytes(), &vec![0, 0, 1]);
    assert_eq!(Varint::new_varint(vec![]).bytes(), &Vec::<u8>::new());
}

#[test]
fn uuid_from_string_and_back() {
    let u = Uuid::from_string("550e8400-e29b-41d4-a716-446655440000".to_string()).unwrap();
    assert_eq!(u.get_inner(), 0x550e8400_e29b_41d4_a716_446655440000);
    assert_eq!(u.to_string(), "550e8400-e29b-41d4-a716-446655440000");
    let simple = Uuid::from_string("550E8400E29B41D4A716446655440000".to_string()).unwrap();
    assert_eq!(simple, u);
    assert_eq!(Uuid::from_u128(0).to_string(), "00000000-0000-0000-0000-000000000000");
    assert_eq!(Uuid::from_u128(u128::MAX).to_string(), "ffffffff-ffff-ffff-ffff-ffffffffffff");
    assert_eq!(
        Uuid::from_u128(0x0123_4567_89ab_cdef_0123_4567_89ab_cdef).to_string(),
        "01234567-89ab-cdef-0123-456789abcdef"
    );
}

#[test]
fn uuid_from_string_fails_with_a_message() {
    let e = Uuid::from_string("not a uuid".to_string()).unwrap_err();
    assert!(e.message.starts_with("Failed to parse UUID: "));
    assert!(e.message.len() > "Failed to parse UUID: ".len());
    assert!(Uuid::from_string(String::new()).is_err());
    assert!(Uuid::from_string("550e8400-e29b-41d4-a716-44665544000".to_string()).is_err());
}

#[test]
fn random_uuid_is_version_four() {
    let a = Uuid::random_v4();
    let b = Uuid::random_v4();
    for u in [a, b] {
        assert_eq!((u.get_inner() >> 76) & 0xf, 4);
        assert_eq!((u.get_inner() >> 62) & 0x3, 2);
        assert_eq!(u.to_string().as_bytes()[14], b'4');
    }
    assert_ne!(a, b);
}

#[test]
fn big_endian_numbers() {
    let mut out = vec![0xaa];
    push_be(&mut out, 0x0102_0304, 4);
    push_be(&mut out, 0x0102_0304, 2);
    push_be(&mut out, 7, 0);
    assert_eq!(out, vec![0xaa, 1, 2, 3, 4, 3, 4]);
    assert_eq!(read_be(&out, 1, 4), 0x0102_0304);
    assert_eq!(read_be(&out, 5, 2), 0x0304);
    assert_eq!(read_be(&out, 0, 0), 0);
    assert_eq!(modulus(0), 1);
    assert_eq!(modulus(2), 65536);
    assert_eq!(modulus(8), 1u128 << 64);
    assert_eq!(unsigned_of(-1, 1), 0xff);
    assert_eq!(unsigned_of(-1, 8), 0xffff_ffff_ffff_ffff);
    assert_eq!(unsigned_of(i64::MIN, 8), 0x8000_0000_0000_0000);
    assert_eq!(unsigned_of(5, 4), 5);
    assert_eq!(signed_of(0xff, 1), -1);
    assert_eq!(signed_of(0x7f, 1), 127);
    assert_eq!(signed_of(0x8000, 2), -32768);
    assert_eq!(signed_of(0xffff_ffff_ffff_ffff, 8), -1);
}

#[test]
fn variable_length_integers() {
    let cases: Vec<(i64, Vec<u8>)> = vec![
        (0, vec![0]),
        (-1, vec![1]),
        (1, vec![2]),
        (63, vec![126]),
        (-64, vec![127]),
        (64, vec![0x80, 0x80]),
        (-65, vec![0x80, 0x81]),
        (8191, vec![0xbf, 0xfe]),
        (8192, vec![0xc0, 0x40, 0x00]),
        (i64::MAX, vec![0xff, 0xff, 0xff, 0xff, 0xff, 0xff, 0xff, 0xff, 0xfe]),
        (i64::MIN, vec![0xff, 0xff, 0xff, 0xff, 0xff, 0xff, 0xff, 0xff, 0xff]),
    ];
    for (v, bytes) in cases {
        let mut out = Vec::new();
        push_vint(&mut out, v);
        assert_eq!(out, bytes, "{}", v);
        out.push(0x55);
        assert_eq!(read_vint(&out, 0), Some((v, bytes.len())));
    }
    assert_eq!(read_vint(&[], 0), None);
    assert_eq!(read_vint(&[0x80], 0), None);
    assert_eq!(read_vint(&[0xff, 0, 0, 0, 0, 0, 0, 0], 0), None);
    assert_eq!(read_vint(&[9, 0x80, 0x02], 1), Some((1, 3)));
}

#[test]
fn cells_on_the_wire() {
    let mut out = Vec::new();
    push_int(&mut out, -2);
    push_null(&mut out);
    push_cell(&mut out, &[7, 8]);
    push_cell(&mut out, &[]);
    assert_eq!(
        out,
        vec![0xff, 0xff, 0xff, 0xfe, 0xff, 0xff, 0xff, 0xff, 0, 0, 0, 2, 7, 8, 0, 0, 0, 0]
    );
    assert_eq!(take_int(&out, 0), Some((-2, 4)));
    assert_eq!(take_cell(&out, 4), Some((None, 8)));
    assert_eq!(take_cell(&out, 8), Some((Some(&[7u8, 8][..]), 14)));
    assert_eq!(take_cell(&out, 14), Some((Some(&[][..]), 18)));
    assert_eq!(take_cell(&out, 18), None);
    assert_eq!(take_cell(&[0, 0, 0, 3, 1, 2], 0), None);
    assert_eq!(take_int(&[0, 0, 0], 0), None);
}

#[test]
fn numbers_as_text() {
    let mut out = Vec::new();
    push_digits(&mut out, 0);
    out.push(b' ');
    push_digits(&mut out, u64::MAX);
    out.push(b' ');
    push_decimal(&mut out, -10);
    out.push(b' ');
    push_hex(&mut out, &[0x00, 0x9a, 0xff]);
    assert_eq!(String::from_utf8(out).unwrap(), "0 18446744073709551615 -10 009aff");
}

#[test]
fn consistency_codes() {
    assert_eq!(Consistency::Any.code(), 0x0000);
    assert_eq!(Consistency::One.code(), 0x0001);
    assert_eq!(Consistency::Two.code(), 0x0002);
    assert_eq!(Consistency::Three.code(), 0x0003);
    assert_eq!(Consistency::Quorum.code(), 0x0004);
    assert_eq!(Consistency::All.code(), 0x0005);
    assert_eq!(Consistency::LocalQuorum.code(), 0x0006);
    assert_eq!(Consistency::EachQuorum.code(), 0x0007);
    assert_eq!(Consistency::Serial.code(), 0x0008);
    assert_eq!(Consistency::LocalSerial.code(), 0x0009);
    assert_eq!(Consistency::LocalOne.code(), 0x000A);
    for code in 0..=0x000Au16 {
        assert_eq!(Consistency::from_code(code).unwrap().code(), code);
    }
    assert_eq!(Consistency::from_code(0x000B), None);
    assert_eq!(SerialConsistency::Serial.code(), 0x0008);
    assert_eq!(SerialConsistency::LocalSerial.code(), 0x0009);
    assert_eq!(SerialConsistency::Serial.as_consistency(), Consistency::Serial);
    assert_eq!(SerialConsistency::LocalSerial.as_consistency(), Consistency::LocalSerial);
}

fn config() -> ClusterConfig {
    ClusterConfig {
        nodes: vec!["10.0.0.1:9042".to_string(), "10.0.0.2:9042".to_string()],
        compression: Some(Compression::Lz4),
        default_execution_profile: Some(ExecutionProfile {
            consistency: Some(Consistency::Quorum),
            serial_consistency: None,
            request_timeout: Some(5),
        }),
        keyspace: Some("base".to_string()),
        auth: Some(Auth { username: "u".to_string(), password: "p".to_string() }),
        ssl: Some(Ssl { ca_filepath: "ca.pem".to_string(), verify_mode: None }),
        auto_await_schema_agreement: Some(true),
        schema_agreement_interval: Some(3),
    }
}

#[test]
fn cluster_takes_the_first_node() {
    let c = ScyllaCluster::new(config());
    assert_eq!(c.uri, "10.0.0.1:9042");
    assert_eq!(c.compression, Some(Compression::Lz4));
    assert_eq!(c.schema_agreement_interval, Some(3));
    assert_eq!(c.auto_await_schema_agreement, Some(true));
    assert_eq!(c.connection.as_ref().unwrap().keyspace, Some("base".to_string()));
    let mut negative = config();
    negative.schema_agreement_interval = Some(-1);
    assert_eq!(ScyllaCluster::new(negative).schema_agreement_interval, Some(u64::MAX));
    let mut least = config();
    least.schema_agreement_interval = Some(i32::MIN);
    assert_eq!(
        ScyllaCluster::new(least).schema_agreement_interval,
        Some(i32::MIN as u64)
    );
}

fn options(keyspace: Option<&str>, user: Option<&str>, ca: Option<&str>) -> ConnectionOptions {
    ConnectionOptions {
        keyspace: keyspace.map(|k| k.to_string()),
        auth: user.map(|u| Auth { username: u.to_string(), password: "secret".to_string() }),
        ssl: ca.map(|c| Ssl { ca_filepath: c.to_string(), verify_mode: Some(VerifyMode::Peer) }),
    }
}

#[test]
fn keyspace_of_a_connection() {
    let c = ScyllaCluster::new(config());
    let name = KeyspaceOrOptions::Keyspace("named".to_string());
    let with = KeyspaceOrOptions::Options(options(Some("first"), None, None));
    let without = KeyspaceOrOptions::Options(options(None, None, None));
    let second = options(Some("second"), None, None);
    let empty = options(None, None, None);
    assert_eq!(c.resolve_keyspace(Some(&name), Some(&second)), Some(&"named".to_string()));
    assert_eq!(c.resolve_keyspace(Some(&with), Some(&second)), Some(&"first".to_string()));
    assert_eq!(c.resolve_keyspace(Some(&without), Some(&second)), Some(&"base".to_string()));
    assert_eq!(c.resolve_keyspace(None, Some(&second)), Some(&"second".to_string()));
    assert_eq!(c.resolve_keyspace(None, Some(&empty)), Some(&"base".to_string()));
    assert_eq!(c.resolve_keyspace(None, None), Some(&"base".to_string()));
}

#[test]
fn user_of_a_connection() {
    let c = ScyllaCluster::new(config());
    let name = KeyspaceOrOptions::Keyspace("named".to_string());
    let with = KeyspaceOrOptions::Options(options(None, Some("first"), None));
    let without = KeyspaceOrOptions::Options(options(None, None, None));
    let second = options(None, Some("second"), None);
    let empty = options(None, None, None);
    let user = |r: Result<Option<&Auth>, ConnectError>| r.map(|a| a.map(|a| a.username.clone()));
    assert_eq!(user(c.resolve_auth(Some(&name), Some(&second))), Ok(Some("second".to_string())));
    assert_eq!(user(c.resolve_auth(Some(&name), Some(&empty))), Ok(None));
    assert_eq!(user(c.resolve_auth(Some(&name), None)), Ok(Some("u".to_string())));
    assert_eq!(user(c.resolve_auth(Some(&with), None)), Ok(Some("first".to_string())));
    assert_eq!(user(c.resolve_auth(Some(&without), None)), Ok(Some("u".to_string())));
    assert_eq!(
        user(c.resolve_auth(Some(&with), Some(&second))),
        Err(ConnectError::OptionsProvidedTwice)
    );
    assert_eq!(user(c.resolve_auth(None, Some(&second))), Ok(Some("second".to_string())));
    assert_eq!(user(c.resolve_auth(None, Some(&empty))), Ok(Some("u".to_string())));
    assert_eq!(user(c.resolve_auth(None, None)), Ok(Some("u".to_string())));
}

#[test]
fn encryption_of_a_connection() {
    let c = ScyllaCluster::new(config());
    let name = KeyspaceOrOptions::Keyspace("named".to_string());
    let with = KeyspaceOrOptions::Options(options(None, None, Some("first.pem")));
    let without = KeyspaceOrOptions::Options(options(None, None, None));
    let second = options(None, None, Some("second.pem"));
    let empty = options(None, None, None);
    let ca = |r: Result<Option<&Ssl>, ConnectError>| r.map(|s| s.map(|s| s.ca_filepath.clone()));
    assert_eq!(ca(c.resolve_ssl(Some(&name), Some(&second))), Ok(Some("second.pem".to_string())));
    assert_eq!(ca(c.resolve_ssl(Some(&name), Some(&empty))), Ok(Some("ca.pem".to_string())));
    assert_eq!(ca(c.resolve_ssl(Some(&name), None)), Ok(Some("ca.pem".to_string())));
    assert_eq!(ca(c.resolve_ssl(Some(&with), None)), Ok(Some("first.pem".to_string())));
    assert_eq!(ca(c.resolve_ssl(Some(&without), None)), Ok(Some("ca.pem".to_string())));
    assert_eq!(
        ca(c.resolve_ssl(Some(&without), Some(&empty))),
        Err(ConnectError::OptionsProvidedTwice)
    );
    assert_eq!(ca(c.resolve_ssl(None, Some(&second))), Ok(Some("second.pem".to_string())));
    assert_eq!(ca(c.resolve_ssl(None, Some(&empty))), Ok(Some("ca.pem".to_string())));
    assert_eq!(ca(c.resolve_ssl(None, None)), Ok(Some("ca.pem".to_string())));
}

#[test]
fn verification_defaults_to_off() {
    let ssl = Ssl { ca_filepath: "ca.pem".to_string(), verify_mode: None };
    assert_eq!(ssl.effective_verify_mode(), VerifyMode::Off);
    let peer = Ssl { ca_filepath: "ca.pem".to_string(), verify_mode: Some(VerifyMode::Peer) };
    assert_eq!(peer.effective_verify_mode(), VerifyMode::Peer);
}

#[test]
fn only_text_is_prepared_on_the_way() {
    let yes = Some(QueryOptions { prepare: Some(true) });
    let no = Some(QueryOptions { prepare: Some(false) });
    let unset = Some(QueryOptions { prepare: None });
    assert!(should_prepare(yes));
    assert!(!should_prepare(no));
    assert!(!should_prepare(unset));
    assert!(!should_prepare(None));
    assert_eq!(plan(StatementKind::Text, yes), ExecutionPlan::PrepareThenExecute);
    assert_eq!(plan(StatementKind::Text, no), ExecutionPlan::ExecuteUnprepared);
    assert_eq!(plan(StatementKind::Text, None), ExecutionPlan::ExecuteUnprepared);
    assert_eq!(plan(StatementKind::Query, yes), ExecutionPlan::ExecuteUnprepared);
    assert_eq!(plan(StatementKind::Prepared, yes), ExecutionPlan::ExecutePrepared);
    assert_eq!(plan(StatementKind::Prepared, None), ExecutionPlan::ExecutePrepared);
}

#[test]
fn strategies_as_the_host_sees_them() {
    assert_eq!(
        ScyllaStrategy::from_strategy(&Strategy::SimpleStrategy { replication_factor: 3 }),
        ScyllaStrategy {
            kind: "SimpleStrategy".to_string(),
            data: Some(StrategyData::Simple(SimpleStrategy { replication_factor: 3 })),
        }
    );
    assert_eq!(
        ScyllaStrategy::from_strategy(&Strategy::SimpleStrategy {
            replication_factor: 0x1_0000_0005
        }),
        ScyllaStrategy {
            kind: "SimpleStrategy".to_string(),
            data: Some(StrategyData::Simple(SimpleStrategy { replication_factor: 5 })),
        }
    );
    assert_eq!(
        ScyllaStrategy::from_strategy(&Strategy::NetworkTopologyStrategy {
            datacenter_repfactors: vec![("dc1".to_string(), 3), ("dc2".to_string(), 0xffff_ffff)],
        }),
        ScyllaStrategy {
            kind: "NetworkTopologyStrategy".to_string(),
            data: Some(StrategyData::NetworkTopology(NetworkTopologyStrategy {
                datacenter_repfactors: vec![("dc1".to_string(), 3), ("dc2".to_string(), -1)],
            })),
        }
    );
    assert_eq!(
        ScyllaStrategy::from_strategy(&Strategy::Other {
            name: "Custom".to_string(),
            data: vec![("k".to_string(), "v".to_string())],
        }),
        ScyllaStrategy {
            kind: "Custom".to_string(),
            data: Some(StrategyData::Other(Other {
                name: "Custom".to_string(),
                data: vec![("k".to_string(), "v".to_string())],
            })),
        }
    );
    assert_eq!(
        ScyllaStrategy::from_strategy(&Strategy::LocalStrategy),
        ScyllaStrategy { kind: "LocalStrategy".to_string(), data: None }
    );
}

#[test]
fn tables_and_views_hold_their_parts() {
    let table = ScyllaTable {
        columns: vec!["id".to_string(), "name".to_string()],
        partition_key: vec!["id".to_string()],
        clustering_key: vec![],
        partitioner: None,
    };
    let view = ScyllaMaterializedView { view_metadata: table.clone(), base_table_name: "t".to_string() };
    assert_eq!(view.view_metadata, table);
    assert_eq!(view.base_table_name, "t");
}

#[test]
fn no_keyspaces_are_none() {
    assert_eq!(get_keyspace_info(vec![]), None);
    let keyspace = ScyllaKeyspace {
        strategy: ScyllaStrategy { kind: "LocalStrategy".to_string(), data: None },
        tables: vec![],
        views: vec![],
    };
    let known = vec![("system".to_string(), keyspace)];
    assert_eq!(get_keyspace_info(known.clone()), Some(known));
}
