use servo::command::{operator_command, OperatorCommandRequest};
use servo::deploy::{Cache, Platform, Repository};
use servo::error::{bad_request, internal, not_found, ErrorKind};
use servo::export::{export_csv, export_format, hdf5_layout, ExportFormat, CsvRecord, SensorText, TimedState, MISSING_ID, MISSING_READING_BITS};
use servo::flight::{
    logger_step, receive_step, AcceptAction, FlightControlMessage, FlightLink, LoggerAction, ReceiveAction,
    ReceiveOutcome, INITIAL_FRAME_BUFFER,
};
use servo::forwarding::{expiry_of, TargetTable, SWEEP_PERIOD, TARGET_TTL};
use servo::mappings::{ChannelType, Computer, MappingRow, MappingTable, NodeMapping};
use servo::migrations::{latest_migration, migration_plan, Direction};
use servo::protocol::TestStatus;
use servo::sequences::{decode_script, script_from_decoded, SaveSequenceRequest, RunSequenceRequest, DeleteSequenceRequest};
use servo::server::{ActiveConfiguration, DeleteMappingsRequest, Servo, SetMappingsRequest};
use servo::vehicle::{CompositeValveState, SensorReading, Unit, ValveReading, ValveState, VehicleState};

fn mapping(text_id: &str, channel_type: ChannelType) -> NodeMapping {
    NodeMapping {
        text_id: text_id.to_string(),
        board_id: 1,
        channel_type,
        channel: 3,
        computer: Computer::Flight,
        max: None,
        min: None,
        calibrated_offset: None,
        connected_threshold: None,
        powered_threshold: None,
        normally_closed: None,
    }
}

fn connected_servo() -> Servo {
    let mut servo = Servo::new();
    assert_eq!(servo.flight.accept(7), AcceptAction::Install);
    servo
}

fn pushed_text_ids(servo: &Servo) -> Vec<String> {
    match servo.flight.last_sent() {
        Some(FlightControlMessage::Mappings(ms)) => ms.iter().map(|m| m.text_id.clone()).collect(),
        other => panic!("expected a mappings push, got {:?}", other),
    }
}

fn valve(state: ValveState) -> CompositeValveState {
    CompositeValveState { commanded: state, actual: state }
}

#[test]
fn mapping_replace_pushes() {
    let mut servo = connected_servo();
    let request = SetMappingsRequest {
        configuration_id: "rig".to_string(),
        mappings: vec![mapping("BBV", ChannelType::Valve)],
    };
    assert!(servo.post_mappings(&request).is_ok());
    assert_eq!(pushed_text_ids(&servo), vec!["BBV".to_string()]);
    match servo.flight.last_sent() {
        Some(FlightControlMessage::Mappings(ms)) => {
            assert_eq!(ms[0].board_id, 1);
            assert_eq!(ms[0].channel, 3);
            assert_eq!(ms[0].channel_type, ChannelType::Valve);
            assert_eq!(ms[0].computer, Computer::Flight);
        },
        _ => panic!("expected a mappings push"),
    }
}

#[test]
fn mapping_replace_without_flight_fails_but_keeps_rows() {
    let mut servo = Servo::new();
    let request = SetMappingsRequest {
        configuration_id: "rig".to_string(),
        mappings: vec![mapping("BBV", ChannelType::Valve)],
    };
    let err = servo.post_mappings(&request).unwrap_err();
    assert_eq!(err.kind, ErrorKind::Internal);
    assert_eq!(err.status_code(), 500);
    assert_eq!(servo.mappings.row_list().len(), 1);
    assert!(servo.flight.last_sent().is_none());
}

#[test]
fn mapping_replace_refuses_repeated_text_id() {
    let mut servo = connected_servo();
    let request = SetMappingsRequest {
        configuration_id: "rig".to_string(),
        mappings: vec![mapping("BBV", ChannelType::Valve), mapping("BBV", ChannelType::Valve)],
    };
    assert_eq!(servo.post_mappings(&request).unwrap_err().kind, ErrorKind::Internal);
    assert_eq!(servo.mappings.row_list().len(), 0);
}

#[test]
fn mapping_replace_drops_old_rows_of_configuration() {
    let mut servo = connected_servo();
    let first = SetMappingsRequest {
        configuration_id: "rig".to_string(),
        mappings: vec![mapping("BBV", ChannelType::Valve), mapping("KBPT", ChannelType::CurrentLoop)],
    };
    servo.post_mappings(&first).unwrap();
    let second = SetMappingsRequest {
        configuration_id: "rig".to_string(),
        mappings: vec![mapping("OMV", ChannelType::Valve)],
    };
    servo.post_mappings(&second).unwrap();
    let rows = servo.mappings.row_list();
    assert_eq!(rows.len(), 1);
    assert_eq!(rows[0].mapping.text_id, "OMV");
    assert_eq!(pushed_text_ids(&servo), vec!["OMV".to_string()]);
}

#[test]
fn click_valve_dispatch() {
    let mut servo = connected_servo();
    servo
        .post_mappings(&SetMappingsRequest {
            configuration_id: "rig".to_string(),
            mappings: vec![mapping("BBV", ChannelType::Valve)],
        })
        .unwrap();
    let request = OperatorCommandRequest {
        command: "click_valve".to_string(),
        target: Some("BBV".to_string()),
        state: Some("open".to_string()),
    };
    assert!(servo.dispatch_operator_command(&request).is_ok());
    match servo.flight.last_sent() {
        Some(FlightControlMessage::Sequence(s)) => {
            assert_eq!(s.name, "command");
            assert_eq!(s.script, "BBV.open()");
        },
        _ => panic!("expected a sequence"),
    }
}

#[test]
fn click_valve_close_and_refusals() {
    let active = vec![mapping("BBV", ChannelType::Valve)];
    let close = OperatorCommandRequest {
        command: "click_valve".to_string(),
        target: Some("BBV".to_string()),
        state: Some("closed".to_string()),
    };
    assert_eq!(operator_command(&close, &active).unwrap().script, "BBV.close()");
    let unknown_command = OperatorCommandRequest { command: "fire".to_string(), target: None, state: None };
    assert_eq!(operator_command(&unknown_command, &active).unwrap_err().kind, ErrorKind::BadRequest);
    let no_target = OperatorCommandRequest { command: "click_valve".to_string(), target: None, state: Some("open".to_string()) };
    assert_eq!(operator_command(&no_target, &active).unwrap_err().kind, ErrorKind::BadRequest);
    let no_state = OperatorCommandRequest { command: "click_valve".to_string(), target: Some("BBV".to_string()), state: None };
    assert_eq!(operator_command(&no_state, &active).unwrap_err().kind, ErrorKind::BadRequest);
    let bad_state = OperatorCommandRequest {
        command: "click_valve".to_string(),
        target: Some("BBV".to_string()),
        state: Some("ajar".to_string()),
    };
    assert_eq!(operator_command(&bad_state, &active).unwrap_err().status_code(), 400);
    let unknown_target = OperatorCommandRequest {
        command: "click_valve".to_string(),
        target: Some("XYZ".to_string()),
        state: Some("open".to_string()),
    };
    assert_eq!(operator_command(&unknown_target, &active).unwrap_err().kind, ErrorKind::BadRequest);
}

#[test]
fn operator_command_without_flight_is_internal() {
    let mut servo = Servo::new();
    let request = OperatorCommandRequest {
        command: "click_valve".to_string(),
        target: Some("BBV".to_string()),
        state: Some("open".to_string()),
    };
    assert_eq!(servo.dispatch_operator_command(&request).unwrap_err().status_code(), 500);
}

fn csv_sample() -> Vec<CsvRecord> {
    vec![
        CsvRecord {
            timestamp: "1".to_string(),
            sensors: vec![SensorText { name: "KBPT".to_string(), value: "10".to_string(), unit: Unit::Psi }],
            valves: vec![ValveReading { name: "BBV".to_string(), state: valve(ValveState::Open) }],
        },
        CsvRecord {
            timestamp: "2".to_string(),
            sensors: vec![SensorText { name: "KBPT".to_string(), value: "11".to_string(), unit: Unit::Psi }],
            valves: vec![],
        },
    ]
}

#[test]
fn csv_export() {
    assert_eq!(export_csv(&csv_sample()), "timestamp,KBPT,BBV\n1,10 psi,Open\n2,11 psi,\n");
}

#[test]
fn csv_export_of_nothing_is_header_only() {
    assert_eq!(export_csv(&vec![]), "timestamp\n");
}

#[test]
fn csv_round_trip_shape() {
    let mut records = csv_sample();
    records.push(CsvRecord {
        timestamp: "3".to_string(),
        sensors: vec![SensorText { name: "WTPT".to_string(), value: "2.5".to_string(), unit: Unit::Amps }],
        valves: vec![ValveReading { name: "BBV".to_string(), state: valve(ValveState::Closed) }],
    });
    let text = export_csv(&records);
    let lines: Vec<&str> = text.lines().collect();
    assert_eq!(lines.len(), 1 + records.len());
    assert_eq!(lines[0], "timestamp,KBPT,WTPT,BBV");
    assert_eq!(lines[1], "1,10 psi,,Open");
    assert_eq!(lines[2], "2,11 psi,,");
    assert_eq!(lines[3], "3,,2.5 A,Closed");
}

fn timed(t: f64, sensors: Vec<(&str, f64, Unit)>, valves: Vec<(&str, ValveState)>) -> TimedState {
    TimedState {
        timestamp_bits: t.to_bits(),
        state: VehicleState {
            sensor_readings: sensors
                .into_iter()
                .map(|(n, v, u)| SensorReading { name: n.to_string(), value_bits: v.to_bits(), unit: u })
                .collect(),
            valve_states: valves
                .into_iter()
                .map(|(n, s)| ValveReading { name: n.to_string(), state: valve(s) })
                .collect(),
        },
    }
}

#[test]
fn hdf5_layout_round_trip() {
    let snaps = vec![
        timed(1.0, vec![("KBPT", 10.0, Unit::Psi)], vec![("BBV", ValveState::Open)]),
        timed(2.0, vec![("KBPT", 11.0, Unit::Psi), ("WTPT", 3.0, Unit::Volts)], vec![("OMV", ValveState::Fault)]),
    ];
    let layout = hdf5_layout(&snaps);
    assert_eq!(layout.timestamps, vec![1.0f64.to_bits(), 2.0f64.to_bits()]);
    assert_eq!(layout.sensors.len(), 2);
    assert_eq!(layout.sensors[0].name, "KBPT");
    assert_eq!(layout.sensors[0].readings, vec![10.0f64.to_bits(), 11.0f64.to_bits()]);
    assert_eq!(layout.sensors[0].units, vec![0, 0]);
    assert_eq!(layout.sensors[1].name, "WTPT");
    assert_eq!(layout.sensors[1].readings, vec![MISSING_READING_BITS, 3.0f64.to_bits()]);
    assert_eq!(f64::from_bits(MISSING_READING_BITS), -6942069420.0);
    assert_eq!(layout.sensors[1].units, vec![-69, 2]);
    assert_eq!(layout.valves.len(), 2);
    assert_eq!(layout.valves[0].name, "BBV");
    assert_eq!(layout.valves[0].states, vec![2, MISSING_ID]);
    assert_eq!(layout.valves[1].states, vec![MISSING_ID, 6]);
    assert_eq!(layout.valve_state_ids, vec![ValveState::Open, ValveState::Fault]);
    for column in &layout.sensors {
        assert_eq!(column.readings.len(), snaps.len());
        assert_eq!(column.units.len(), snaps.len());
    }
}

#[test]
fn duplicate_forwarding_target() {
    let mut servo = Servo::new();
    let host = "10.0.0.5".to_string();
    assert!(servo.register_forwarding(&host, 7201, 1000).is_ok());
    let err = servo.register_forwarding(&host, 7201, 1001).unwrap_err();
    assert_eq!(err.kind, ErrorKind::Conflict);
    assert_eq!(err.status_code(), 409);
    assert_eq!(servo.targets.target_list().len(), 1);
}

#[test]
fn forwarding_renewal_authentication() {
    let mut table = TargetTable::new();
    let owner = "10.0.0.5".to_string();
    let id = table.register(&owner, 9000, 100).unwrap();
    assert_eq!(table.target_list()[0].expiration, 100 + TARGET_TTL);
    let err = table.renew(id, &"10.0.0.6".to_string(), 200).unwrap_err();
    assert_eq!(err.kind, ErrorKind::Forbidden);
    assert_eq!(err.status_code(), 403);
    assert_eq!(table.target_list()[0].expiration, 700);
    assert!(table.renew(id, &owner, 200).is_ok());
    assert_eq!(table.target_list()[0].expiration, 800);
    assert_eq!(table.renew(id.wrapping_add(1), &owner, 200).unwrap_err().status_code(), 404);
}

#[test]
fn forwarding_ids_differ() {
    let mut table = TargetTable::new();
    let a = table.register(&"10.0.0.1".to_string(), 1, 0).unwrap();
    let b = table.register(&"10.0.0.1".to_string(), 2, 0).unwrap();
    assert_ne!(a, b);
}

#[test]
fn target_ttl_sweep() {
    let mut table = TargetTable::new();
    table.register_with_id(1, &"10.0.0.1".to_string(), 1, 0).unwrap();
    table.register_with_id(2, &"10.0.0.2".to_string(), 1, 100).unwrap();
    table.sweep(TARGET_TTL + SWEEP_PERIOD);
    let left: Vec<u128> = table.target_list().iter().map(|t| t.target_id).collect();
    assert_eq!(left, vec![2]);
    assert_eq!(table.live_targets(650).len(), 1);
    assert_eq!(table.live_targets(700).len(), 0);
    table.sweep(700);
    assert_eq!(table.target_list().len(), 0);
}

#[test]
fn activate_unknown_configuration() {
    let mut servo = connected_servo();
    servo
        .post_mappings(&SetMappingsRequest {
            configuration_id: "rig".to_string(),
            mappings: vec![mapping("BBV", ChannelType::Valve)],
        })
        .unwrap();
    let before = pushed_text_ids(&servo);
    servo.flight.end_session();
    assert_eq!(servo.flight.accept(8), AcceptAction::Install);
    let err = servo
        .activate_configuration(&ActiveConfiguration { configuration_id: "ghost".to_string() })
        .unwrap_err();
    assert_eq!(err.kind, ErrorKind::BadRequest);
    assert_eq!(err.status_code(), 400);
    assert_eq!(pushed_text_ids(&servo), before);
    assert!(servo.mappings.row_list()[0].active);
}

#[test]
fn active_set_uniqueness() {
    let mut servo = connected_servo();
    servo
        .post_mappings(&SetMappingsRequest {
            configuration_id: "rig".to_string(),
            mappings: vec![mapping("BBV", ChannelType::Valve), mapping("KBPT", ChannelType::CurrentLoop)],
        })
        .unwrap();
    servo
        .post_mappings(&SetMappingsRequest {
            configuration_id: "pad".to_string(),
            mappings: vec![mapping("OMV", ChannelType::Valve)],
        })
        .unwrap();
    servo.activate_configuration(&ActiveConfiguration { configuration_id: "pad".to_string() }).unwrap();
    for row in servo.mappings.row_list() {
        assert_eq!(row.active, row.configuration_id == "pad");
    }
    assert_eq!(pushed_text_ids(&servo), vec!["OMV".to_string()]);
    assert_eq!(servo.get_active_configuration().unwrap().configuration_id, "pad");
}

#[test]
fn no_active_configuration_is_not_found() {
    let servo = Servo::new();
    assert_eq!(servo.get_active_configuration().unwrap_err().status_code(), 404);
}

#[test]
fn upsert_and_delete_mappings() {
    let mut servo = connected_servo();
    let mut first = mapping("BBV", ChannelType::Valve);
    first.channel = 1;
    servo
        .put_mappings(&SetMappingsRequest { configuration_id: "rig".to_string(), mappings: vec![first] })
        .unwrap();
    let mut second = mapping("BBV", ChannelType::Valve);
    second.channel = 9;
    servo
        .put_mappings(&SetMappingsRequest {
            configuration_id: "rig".to_string(),
            mappings: vec![second, mapping("KBPT", ChannelType::CurrentLoop)],
        })
        .unwrap();
    let rows = servo.mappings.row_list();
    assert_eq!(rows.len(), 2);
    assert_eq!(rows[0].mapping.channel, 9);
    servo
        .delete_mappings(&DeleteMappingsRequest {
            configuration_id: "rig".to_string(),
            mappings: Some(vec![mapping("BBV", ChannelType::Valve)]),
        })
        .unwrap();
    assert_eq!(pushed_text_ids(&servo), vec!["KBPT".to_string()]);
    servo
        .delete_mappings(&DeleteMappingsRequest { configuration_id: "rig".to_string(), mappings: None })
        .unwrap();
    assert_eq!(servo.mappings.row_list().len(), 0);
    assert!(pushed_text_ids(&servo).is_empty());
}

#[test]
fn configurations_are_grouped() {
    let mut table = MappingTable::new();
    table.upsert_mappings(&"a".to_string(), &vec![mapping("X", ChannelType::Valve)]);
    table.upsert_mappings(&"b".to_string(), &vec![mapping("Y", ChannelType::Valve)]);
    table.upsert_mappings(&"a".to_string(), &vec![mapping("Z", ChannelType::Tc)]);
    let groups = table.configurations();
    assert_eq!(groups.len(), 2);
    assert_eq!(groups[0].configuration_id, "a");
    let ids: Vec<&str> = groups[0].mappings.iter().map(|m| m.text_id.as_str()).collect();
    assert_eq!(ids, vec!["X", "Z"]);
    assert_eq!(groups[1].configuration_id, "b");
}

#[test]
fn calibration_sets_offsets() {
    let mut servo = connected_servo();
    servo
        .post_mappings(&SetMappingsRequest {
            configuration_id: "rig".to_string(),
            mappings: vec![
                mapping("KBPT", ChannelType::CurrentLoop),
                mapping("DIFF", ChannelType::DifferentialSignal),
                mapping("TC1", ChannelType::Tc),
                mapping("GONE", ChannelType::CurrentLoop),
            ],
        })
        .unwrap();
    let state = VehicleState {
        sensor_readings: vec![
            SensorReading { name: "KBPT".to_string(), value_bits: 4.5f64.to_bits(), unit: Unit::Psi },
            SensorReading { name: "DIFF".to_string(), value_bits: 0.25f64.to_bits(), unit: Unit::Volts },
            SensorReading { name: "TC1".to_string(), value_bits: 300.0f64.to_bits(), unit: Unit::Kelvin },
        ],
        valve_states: vec![],
    };
    let updates = servo.calibrate(&state).unwrap();
    let got: Vec<(String, f64)> = updates.iter().map(|u| (u.sensor.clone(), f64::from_bits(u.offset_bits))).collect();
    assert_eq!(got, vec![("KBPT".to_string(), 4.5), ("DIFF".to_string(), 0.25)]);
    let rows = servo.mappings.row_list();
    assert_eq!(rows[0].mapping.calibrated_offset, Some(4.5f64.to_bits()));
    assert_eq!(rows[2].mapping.calibrated_offset, None);
    assert_eq!(rows[3].mapping.calibrated_offset, None);
}

#[test]
fn at_most_one_flight_session() {
    let mut link = FlightLink::new();
    assert!(!link.is_connected());
    assert_eq!(link.accept(1), AcceptAction::Install);
    assert_eq!(link.accept(2), AcceptAction::Close);
    assert!(link.is_connected());
    link.end_session();
    assert!(!link.is_connected());
    assert_eq!(link.accept(3), AcceptAction::Install);
}

#[test]
fn telemetry_receive_decisions() {
    assert_eq!(INITIAL_FRAME_BUFFER, 521);
    assert_eq!(receive_step(521, ReceiveOutcome::Datagram(0)), ReceiveAction::Stop);
    assert_eq!(receive_step(521, ReceiveOutcome::Datagram(100)), ReceiveAction::Parse(100));
    assert_eq!(receive_step(521, ReceiveOutcome::Datagram(521)), ReceiveAction::Grow(1042));
    assert_eq!(receive_step(521, ReceiveOutcome::BufferTooSmall), ReceiveAction::Grow(1042));
    assert_eq!(receive_step(521, ReceiveOutcome::Failed), ReceiveAction::Stop);
    assert_eq!(receive_step(usize::MAX, ReceiveOutcome::BufferTooSmall), ReceiveAction::Stop);
}

#[test]
fn snapshot_logger_decisions() {
    match logger_step(true, 5, Some(vec![1, 2, 3])) {
        LoggerAction::Insert(t, bytes) => {
            assert_eq!(t, 5);
            assert_eq!(bytes, vec![1, 2, 3]);
        },
        _ => panic!("expected an insert"),
    }
    assert!(matches!(logger_step(false, 5, Some(vec![1])), LoggerAction::Stop));
    assert!(matches!(logger_step(true, 5, None), LoggerAction::Skip));
}

#[test]
fn sequence_save_and_run() {
    let mut servo = connected_servo();
    servo
        .save_sequence(&SaveSequenceRequest {
            name: "chill".to_string(),
            configuration_id: Some("rig".to_string()),
            script: "QkJWLm9wZW4oKQ==".to_string(),
        })
        .unwrap();
    let listed = servo.retrieve_sequences();
    assert_eq!(listed.sequences.len(), 1);
    assert_eq!(listed.sequences[0].script, "BBV.open()");
    assert_eq!(listed.sequences[0].configuration_id.as_deref(), Some("rig"));
    servo.run_sequence(&RunSequenceRequest { name: "chill".to_string(), force: None }).unwrap();
    match servo.flight.last_sent() {
        Some(FlightControlMessage::Sequence(s)) => {
            assert_eq!(s.name, "chill");
            assert_eq!(s.script, "BBV.open()");
        },
        _ => panic!("expected a sequence"),
    }
    servo.delete_sequence(&DeleteSequenceRequest { name: "chill".to_string() });
    let err = servo.run_sequence(&RunSequenceRequest { name: "chill".to_string(), force: Some(true) }).unwrap_err();
    assert_eq!(err.kind, ErrorKind::BadRequest);
}

#[test]
fn sequence_save_replaces_by_name() {
    let mut servo = Servo::new();
    for script in ["YQ==", "Yg=="] {
        servo
            .save_sequence(&SaveSequenceRequest { name: "s".to_string(), configuration_id: None, script: script.to_string() })
            .unwrap();
    }
    let listed = servo.retrieve_sequences();
    assert_eq!(listed.sequences.len(), 1);
    assert_eq!(listed.sequences[0].script, "b");
}

#[test]
fn sequence_decoding_errors() {
    assert_eq!(decode_script(&"aGVsbG8=".to_string()).unwrap(), "hello");
    assert_eq!(decode_script(&"not base64!".to_string()).unwrap_err().kind, ErrorKind::BadRequest);
    assert_eq!(decode_script(&"//79".to_string()).unwrap_err().kind, ErrorKind::BadRequest);
    assert_eq!(script_from_decoded(None).unwrap_err().status_code(), 400);
    assert_eq!(script_from_decoded(Some(vec![0xff])).unwrap_err().status_code(), 400);
    assert_eq!(script_from_decoded(Some(b"ok".to_vec())).unwrap(), "ok");
    let mut servo = Servo::new();
    let err = servo
        .save_sequence(&SaveSequenceRequest { name: "x".to_string(), configuration_id: None, script: "%%".to_string() })
        .unwrap_err();
    assert_eq!(err.status_code(), 400);
    assert_eq!(servo.retrieve_sequences().sequences.len(), 0);
}

#[test]
fn migration_plans() {
    assert_eq!(latest_migration(&vec![]), None);
    assert_eq!(latest_migration(&vec![2, 7, 3]), Some(7));
    let up = migration_plan(1, 3);
    assert_eq!(up.iter().map(|s| (s.migration, s.direction)).collect::<Vec<_>>(), vec![(2, Direction::Up), (3, Direction::Up)]);
    let down = migration_plan(3, 1);
    assert_eq!(down.iter().map(|s| (s.migration, s.direction)).collect::<Vec<_>>(), vec![(3, Direction::Down), (2, Direction::Down)]);
    assert!(migration_plan(4, 4).is_empty());
}

#[test]
fn error_statuses() {
    assert_eq!(bad_request("x").status_code(), 400);
    assert_eq!(not_found("x").status_code(), 404);
    assert_eq!(internal("boom").message, "boom");
    assert_eq!(ErrorKind::Unauthorized.status_code(), 401);
}

#[test]
fn test_status_from_i32() {
    assert_eq!(TestStatus::from_i32(-1), Some(TestStatus::InProgress));
    assert_eq!(TestStatus::from_i32(0), Some(TestStatus::Fail));
    assert_eq!(TestStatus::from_i32(1), Some(TestStatus::Pass));
    assert_eq!(TestStatus::from_i32(2), None);
}

#[test]
fn deploy_tables() {
    assert_eq!(Platform::Beaglebone.triple(), "armv7-unknown-linux-musleabihf");
    assert_eq!(Platform::RaspberryPi.default_login(), ("pi", "p@ssw0rd"));
    assert_eq!(Repository::Servo.remote(), "https://github.com/gt-space/servo");
    assert_eq!(Cache::in_home(&"/home/op".to_string()).path, "/home/op/.servo");
}

#[test]
fn units_and_valve_ids() {
    assert_eq!(Unit::Psi.symbol(), "psi");
    assert_eq!(Unit::Kelvin.id(), 3);
    assert_eq!(ValveState::CommandedClosed.id(), 5);
    assert_eq!(ValveState::from_id(5), ValveState::CommandedClosed);
    assert_eq!(ValveState::Open.name(), "Open");
    let state = VehicleState::new();
    assert_eq!(state.sensor_index(&"X".to_string()), None);
}

#[test]
fn table_from_rows_refuses_repeated_keys() {
    let row = |t: &str| MappingRow { configuration_id: "c".to_string(), mapping: mapping(t, ChannelType::Led), active: false };
    assert!(MappingTable::from_rows(vec![row("A"), row("B")]).is_ok());
    assert_eq!(MappingTable::from_rows(vec![row("A"), row("A")]).err().unwrap().kind, ErrorKind::Internal);
}

#[test]
fn writing_a_second_configuration_keeps_one_active() {
    let mut servo = connected_servo();
    servo
        .post_mappings(&SetMappingsRequest { configuration_id: "a".to_string(), mappings: vec![mapping("BBV", ChannelType::Valve)] })
        .unwrap();
    servo
        .post_mappings(&SetMappingsRequest { configuration_id: "b".to_string(), mappings: vec![mapping("OMV", ChannelType::Valve)] })
        .unwrap();
    servo
        .put_mappings(&SetMappingsRequest { configuration_id: "b".to_string(), mappings: vec![mapping("KBPT", ChannelType::CurrentLoop)] })
        .unwrap();
    for row in servo.mappings.row_list() {
        assert_eq!(row.active, row.configuration_id == "a");
    }
    assert_eq!(pushed_text_ids(&servo), vec!["BBV".to_string()]);
    servo
        .put_mappings(&SetMappingsRequest { configuration_id: "a".to_string(), mappings: vec![mapping("WTPT", ChannelType::Tc)] })
        .unwrap();
    assert_eq!(pushed_text_ids(&servo), vec!["BBV".to_string(), "WTPT".to_string()]);
}

#[test]
fn click_valve_needs_a_valve_target() {
    let active = vec![mapping("KBPT", ChannelType::CurrentLoop)];
    let request = OperatorCommandRequest {
        command: "click_valve".to_string(),
        target: Some("KBPT".to_string()),
        state: Some("open".to_string()),
    };
    assert_eq!(operator_command(&request, &active).unwrap_err().kind, ErrorKind::BadRequest);
}

#[test]
fn first_registration_succeeds_and_renewal_saturates() {
    let mut servo = Servo::new();
    let id = servo.register_forwarding(&"10.0.0.9".to_string(), 4000, u64::MAX - 5).unwrap();
    assert_eq!(servo.targets.target_list()[0].expiration, u64::MAX);
    assert_eq!(expiry_of(100), 100 + TARGET_TTL);
    assert_eq!(expiry_of(u64::MAX), u64::MAX);
    assert!(servo.targets.renew(id, &"10.0.0.9".to_string(), u64::MAX).is_ok());
    assert_eq!(servo.targets.renew(id, &"10.0.0.8".to_string(), 5).unwrap_err().status_code(), 403);
    assert_eq!(servo.targets.target_list()[0].expiration, u64::MAX);
}

#[test]
fn run_sequence_without_flight_is_internal() {
    let mut servo = Servo::new();
    servo
        .save_sequence(&SaveSequenceRequest { name: "s".to_string(), configuration_id: None, script: "YQ==".to_string() })
        .unwrap();
    let err = servo.run_sequence(&RunSequenceRequest { name: "s".to_string(), force: None }).unwrap_err();
    assert_eq!(err.kind, ErrorKind::Internal);
}

#[test]
fn export_formats() {
    assert_eq!(export_format(&"csv".to_string()).unwrap(), ExportFormat::Csv);
    assert_eq!(export_format(&"hdf5".to_string()).unwrap(), ExportFormat::Hdf5);
    assert_eq!(export_format(&"xlsx".to_string()).unwrap_err().status_code(), 400);
}
