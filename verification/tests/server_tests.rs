use bytes::Bytes;
use wsn_server::comm::config::ConfigFile;
use wsn_server::comm::devices::cc32xx::CC32xxUniqueIdType;
use wsn_server::comm::influx_error::InfluxErrorCode;
use wsn_server::comm::influxdb::InfluxDbId;
use wsn_server::comm::message::{CmdRespId, CmdSync, MsgCmdType};
use wsn_server::server::{
    initial_subscriptions, parse_u8, plan_response, route_topic, split_topic, DeviceKind, MqttSender,
    MqttServer, PanicReason, PublishAction, RegisterOutcome, TopicRoute, WriteOutcome,
};

const WRITE_NS: &str = "http://localhost:8086/api/v2/write?orgID=org&bucket=bucket&precision=ns";
const WRITE_US: &str = "http://localhost:8086/api/v2/write?orgID=org&bucket=bucket&precision=us";

fn config() -> ConfigFile {
    ConfigFile {
        url: "http://localhost".to_string(),
        port: "8086".to_string(),
        org_id: "org".to_string(),
        bucket: "bucket".to_string(),
        token: "SECRET-REDACTED".to_string(),
        devices: vec![
            ("01:02:03:04:05:06".to_string(), "test".to_string()),
            ("0A:0B:0C:0D:0E:0F".to_string(), "s2".to_string()),
        ],
    }
}

fn server() -> MqttServer<'static> {
    MqttServer::new("cfg.json".to_string(), &config(), 0)
}

/// A message: the header (sender, type, total length) then `body`.
fn message(device_id: u8, msg_type: u8, body: &[u8]) -> Bytes {
    let len = (body.len() + 4) as u16;
    let mut v = vec![device_id, msg_type];
    v.extend_from_slice(&len.to_le_bytes());
    v.extend_from_slice(body);
    Bytes::from(v)
}

fn command(id: u16, record: &[u8]) -> Vec<u8> {
    let mut v = id.to_le_bytes().to_vec();
    v.extend_from_slice(record);
    v
}

fn ready(mac: [u8; 6], freq: u64) -> Vec<u8> {
    let mut r = mac.to_vec();
    r.extend_from_slice(&freq.to_le_bytes());
    command(1, &r)
}

fn data_packet(data_id: u32, buffer_size: u16, buffers: &[Vec<u8>], ts: u64, count: u64) -> Vec<u8> {
    let mut v = Vec::new();
    v.extend_from_slice(&data_id.to_le_bytes());
    v.extend_from_slice(&buffer_size.to_le_bytes());
    v.extend_from_slice(&(buffers.len() as u16).to_le_bytes());
    v.extend_from_slice(&ts.to_le_bytes());
    v.extend_from_slice(&count.to_le_bytes());
    for b in buffers {
        v.extend_from_slice(b);
    }
    v
}

fn buffer(id: u64, packed: &[u8]) -> Vec<u8> {
    let mut v = id.to_le_bytes().to_vec();
    v.extend_from_slice(packed);
    v
}

#[test]
fn topics_split_on_every_slash() {
    assert_eq!(split_topic("CC32xx/data/3"), vec!["CC32xx", "data", "3"]);
    assert_eq!(split_topic("a//b/"), vec!["a", "", "b", ""]);
    assert_eq!(split_topic(""), vec![""]);
}

#[test]
fn u8_numbers_parse_as_rust_does() {
    assert_eq!(parse_u8("0"), Some(0));
    assert_eq!(parse_u8("007"), Some(7));
    assert_eq!(parse_u8("+5"), Some(5));
    assert_eq!(parse_u8("255"), Some(255));
    assert_eq!(parse_u8("256"), None);
    assert_eq!(parse_u8(""), None);
    assert_eq!(parse_u8("+"), None);
    assert_eq!(parse_u8("-1"), None);
    assert_eq!(parse_u8("1a"), None);
}

#[test]
fn topics_route() {
    assert_eq!(route_topic("CC32xx/cmd"), TopicRoute::Command(DeviceKind::CC32xx));
    assert_eq!(route_topic("ESP32/cmd/extra"), TopicRoute::Command(DeviceKind::Esp32));
    assert_eq!(route_topic("CC32xx/data/3"), TopicRoute::Data(DeviceKind::CC32xx, 3));
    assert_eq!(route_topic("ESP32/data/12/x"), TopicRoute::Data(DeviceKind::Esp32, 12));
    assert_eq!(route_topic("CC32xx/data/300"), TopicRoute::DataInvalidNum);
    assert_eq!(route_topic("CC32xx/data"), TopicRoute::DataNoId);
    assert_eq!(route_topic("CC32xx"), TopicRoute::NoOperation);
    assert_eq!(route_topic("CC32xx/other"), TopicRoute::UnknownOperation);
    assert_eq!(route_topic("cc32xx/cmd"), TopicRoute::UnknownDevice);
}

#[test]
fn startup_subscriptions() {
    let t = initial_subscriptions();
    assert_eq!(t.len(), 20);
    assert_eq!(t[0], "CC32xx/cmd/d2s/255");
    assert_eq!(t[1], "CC32xx/cmd/255");
    assert_eq!(t[2], "CC32xx/data/1");
    assert_eq!(t[10], "CC32xx/data/9");
    assert_eq!(t[11], "ESP32/data/1");
    assert_eq!(t[19], "ESP32/data/9");
    for topic in &t[2..] {
        assert!(matches!(route_topic(topic), TopicRoute::Data(_, 1..=9)));
    }
}

#[test]
fn response_to_an_id_subscribes_then_publishes() {
    let plan = plan_response(MqttSender {
        device_topic: "CC32xx".to_string(),
        device_id: InfluxDbId { id: 0 },
        msg_cmd: MsgCmdType::RespId(CmdRespId { mac: [1, 2, 3, 4, 5, 6], device_id: 2 }),
    });
    assert_eq!(plan.subscribe.as_deref(), Some("CC32xx/cmd/d2s/2"));
    assert_eq!(plan.publish_topic, "CC32xx/cmd/s2d/0");
    assert_eq!(&plan.payload.unwrap()[..], &[0, 1, 14, 0, 2, 0, 1, 2, 3, 4, 5, 6, 2, 0]);
}

#[test]
fn response_to_other_commands_fails() {
    let plan = plan_response(MqttSender {
        device_topic: "CC32xx".to_string(),
        device_id: InfluxDbId { id: 7 },
        msg_cmd: MsgCmdType::SyncChrono(CmdSync { buffer_count: 1, timestamp_ns: 2 }),
    });
    assert!(plan.subscribe.is_none());
    assert_eq!(plan.publish_topic, "CC32xx/cmd/s2d/7");
    assert_eq!(plan.payload.err(), Some(InfluxErrorCode::CmdTypeNotImplemented));
}

#[test]
fn short_or_mislabelled_messages() {
    let mut s = server();
    let a = s.handle_publish("CC32xx/cmd", Bytes::from(vec![1u8, 1, 3]), 5);
    assert!(matches!(a, PublishAction::Panics(PanicReason::MessageTooShort)));
    let a = s.handle_publish("CC32xx/cmd", Bytes::from(vec![1u8, 1, 9, 0, 0]), 5);
    assert!(matches!(a, PublishAction::Skip(Some(InfluxErrorCode::HeaderLengthIncorrect))));
    let a = s.handle_publish("Other/cmd", message(1, 1, &ready([1; 6], 1)), 5);
    assert!(matches!(a, PublishAction::Skip(None)));
    let a = s.handle_publish("ESP32/cmd", message(1, 1, &ready([1; 6], 1)), 5);
    assert!(matches!(a, PublishAction::Skip(None)));
}

#[test]
fn command_cases() {
    let mut s = server();
    // Not a command message.
    let a = s.handle_publish("CC32xx/cmd", message(1, 2, &ready([1; 6], 1)), 5);
    assert!(matches!(a, PublishAction::Skip(None)));
    // No room for the command header.
    let a = s.handle_publish("CC32xx/cmd", message(1, 1, &[1]), 5);
    assert!(matches!(a, PublishAction::Panics(PanicReason::CommandTooShort)));
    // Wrong record length.
    let a = s.handle_publish("CC32xx/cmd", message(1, 1, &command(3, &[0; 15])), 5);
    assert!(matches!(a, PublishAction::Skip(Some(InfluxErrorCode::CmdIncorrectLength))));
    // Unknown command.
    let a = s.handle_publish("CC32xx/cmd", message(1, 1, &command(9, &[])), 5);
    assert!(matches!(a, PublishAction::Skip(Some(InfluxErrorCode::CmdTypeNotImplemented))));
}

#[test]
fn ready_registers_and_answers_the_id() {
    let mut s = server();
    let cfg = config();
    let mac = [0x0A, 0x0B, 0x0C, 0x0D, 0x0E, 0x0F];
    let a = s.handle_publish("CC32xx/cmd", message(255, 1, &ready(mac, 128000)), 5);
    let (m, rx) = match a {
        PublishAction::Register { mac, rx_id } => (mac, rx_id),
        _ => panic!("expected a registration"),
    };
    assert_eq!(m.id, mac);
    assert_eq!(rx, InfluxDbId { id: 255 });
    match s.finish_register(m, rx, Some(&cfg), 5) {
        RegisterOutcome::Respond(sender) => {
            assert_eq!(sender.device_topic, "CC32xx");
            assert_eq!(sender.device_id, InfluxDbId { id: 0 });
            match sender.msg_cmd {
                MsgCmdType::RespId(c) => {
                    assert_eq!(c.mac, mac);
                    assert_eq!(c.device_id, 2);
                }
                _ => panic!("expected an id response"),
            }
        }
        _ => panic!("expected a response"),
    }
    // A second announcement keeps the id.
    match s.finish_register(CC32xxUniqueIdType { id: mac }, rx, Some(&cfg), 6) {
        RegisterOutcome::Respond(sender) => match sender.msg_cmd {
            MsgCmdType::RespId(c) => assert_eq!(c.device_id, 2),
            _ => panic!("expected an id response"),
        },
        _ => panic!("expected a response"),
    }
}

#[test]
fn unknown_device_is_logged() {
    let mut s = server();
    let cfg = config();
    let mac = CC32xxUniqueIdType { id: [0xde, 0xad, 0, 0, 0, 1] };
    match s.finish_register(mac, InfluxDbId { id: 255 }, Some(&cfg), 77) {
        RegisterOutcome::LogError(req) => {
            assert_eq!(req.url, WRITE_NS);
            assert_eq!(req.header_value, "Token SECRET-REDACTED");
            assert_eq!(
                req.body,
                "error,device=DE:AD:00:00:00:01 type_error=\"UniqueIdNotRegistered\",info_error=\"DE:AD:00:00:00:01\" 77"
            );
        }
        _ => panic!("expected an error log"),
    }
    match s.finish_register(mac, InfluxDbId { id: 255 }, None, 78) {
        RegisterOutcome::LogError(req) => assert!(req.body.contains("NotValidConfigFile")),
        _ => panic!("expected an error log"),
    }
}

#[test]
fn rssi_is_logged_under_the_device_name() {
    let mut s = server();
    let mut rec = Vec::new();
    rec.extend_from_slice(&(-70i16).to_le_bytes());
    rec.extend_from_slice(&(-3i16).to_le_bytes());
    rec.extend_from_slice(&9u32.to_le_bytes());
    match s.handle_publish("CC32xx/cmd", message(1, 1, &command(4, &rec)), 123) {
        PublishAction::LogInfo(req) => {
            assert_eq!(req.url, WRITE_NS);
            assert_eq!(req.header_key, "Authorization");
            assert_eq!(req.body, "rssi,device=test data_rssi=-70,ctrl_rssi=-3,error_pkt_num=9 123");
        }
        _ => panic!("expected an rssi log"),
    }
    let a = s.handle_publish("CC32xx/cmd", message(5, 1, &command(4, &rec)), 123);
    assert!(matches!(a, PublishAction::Skip(Some(InfluxErrorCode::IdDuplicated))));
}

#[test]
fn sync_of_known_and_unknown_devices() {
    let mut s = server();
    let mut rec = 4u64.to_le_bytes().to_vec();
    rec.extend_from_slice(&1000u64.to_le_bytes());
    let a = s.handle_publish("CC32xx/cmd", message(1, 1, &command(3, &rec)), 5);
    assert!(matches!(a, PublishAction::Skip(None)));
    let a = s.handle_publish("CC32xx/cmd", message(3, 1, &command(3, &rec)), 5);
    assert!(matches!(a, PublishAction::Skip(Some(InfluxErrorCode::IdDuplicated))));
}

#[test]
fn data_is_written_with_the_device_precision() {
    let mut s = server();
    let ts = u64::MAX / 2;
    let bufs = vec![buffer(0, &[0x00, 0x10, 0x02, 0x00, 0x30, 0x04]), buffer(1, &[0xFF, 0xF0, 0x01, 0, 0, 0])];
    let packet = data_packet(1, 14, &bufs, ts, 0);
    match s.handle_publish("CC32xx/data/1", message(1, 2, &packet), 5) {
        PublishAction::Write { error_log, write } => {
            assert!(error_log.is_none());
            match write {
                WriteOutcome::Request(req) => {
                    assert_eq!(req.url, WRITE_US);
                    assert_eq!(req.header_value, "Token SECRET-REDACTED");
                    let lines: Vec<&str> = req.body.lines().collect();
                    assert_eq!(lines.len(), 8);
                    let values: Vec<&str> = lines
                        .iter()
                        .map(|l| l.split(' ').nth(1).unwrap().trim_start_matches("plhp-sensor="))
                        .collect();
                    assert_eq!(values, vec!["1", "2", "3", "4", "4095", "1", "0", "0"]);
                    for l in &lines {
                        assert!(l.starts_with("test_phase_3,device=test plhp-sensor="));
                    }
                    let times: Vec<u128> =
                        lines.iter().map(|l| l.split(' ').nth(2).unwrap().parse().unwrap()).collect();
                    for w in times.windows(2) {
                        assert!(w[0] < w[1]);
                    }
                }
                _ => panic!("expected a write"),
            }
        }
        _ => panic!("expected a data write"),
    }
    // The same packet number again is logged as a duplicate and still written.
    match s.handle_publish("CC32xx/data/1", message(1, 2, &packet), 6) {
        PublishAction::Write { error_log, write } => {
            let log = error_log.expect("duplicate logged");
            assert_eq!(log.url, WRITE_NS);
            assert_eq!(log.body, "error,device=Server type_error=\"DataIdDuplicated\",info_error=\"1\" 6");
            assert!(matches!(write, WriteOutcome::Request(_)));
        }
        _ => panic!("expected a data write"),
    }
}

#[test]
fn data_cases_that_write_nothing() {
    let mut s = server();
    let ts = u64::MAX / 2;
    // An unknown device: the count fails and nothing is written.
    let packet = data_packet(1, 14, &[buffer(0, &[0; 6])], ts, 0);
    match s.handle_publish("CC32xx/data/7", message(7, 2, &packet), 5) {
        PublishAction::Write { error_log, write } => {
            assert!(error_log.unwrap().body.contains("IdNotValid"));
            assert!(matches!(write, WriteOutcome::Skipped));
        }
        _ => panic!("expected a data write"),
    }
    // Too short for a data header.
    let a = s.handle_publish("CC32xx/data/1", message(1, 2, &[0; 10]), 5);
    assert!(matches!(a, PublishAction::Panics(PanicReason::DataHeaderTooShort)));
    // An invalid device number in the topic.
    let a = s.handle_publish("CC32xx/data/x", message(1, 2, &packet), 5);
    assert!(matches!(a, PublishAction::Skip(None)));
}

#[test]
fn data_with_bad_buffer_sizes() {
    let mut s = server();
    let ts = u64::MAX / 2;
    // Declared as one buffer of 14 bytes, but 15 bytes follow.
    let mut packet = data_packet(1, 14, &[buffer(0, &[0; 6])], ts, 0);
    packet.push(0);
    let a = s.handle_publish("CC32xx/data/1", message(1, 2, &packet), 5);
    assert!(matches!(a, PublishAction::Skip(Some(InfluxErrorCode::NumBuffersFrac))));
    // Declared as one buffer of 14 bytes, but two follow.
    let mut packet = data_packet(1, 14, &[buffer(0, &[0; 6])], ts, 0);
    packet.extend_from_slice(&buffer(1, &[0; 6]));
    let a = s.handle_publish("CC32xx/data/1", message(1, 2, &packet), 5);
    assert!(matches!(a, PublishAction::Skip(Some(InfluxErrorCode::IncorrectNumBuffers))));
    // Buffers shorter than their own header.
    let packet = data_packet(2, 4, &[vec![0; 4]], ts, 0);
    match s.handle_publish("CC32xx/data/1", message(1, 2, &packet), 5) {
        PublishAction::Write { write, .. } => {
            assert!(matches!(write, WriteOutcome::Panics(PanicReason::BufferTooShort)))
        }
        _ => panic!("expected a data write"),
    }
}

#[test]
fn stray_sample_bytes() {
    let mut s = server();
    // Buffers of four sample bytes: a triple and a stray byte.
    let bufs = vec![buffer(0, &[1, 2, 3, 4]), buffer(1, &[5, 6, 7, 8])];
    // Synchronised before the server started: each buffer is refused at its first
    // sample, before the stray byte is reached, and nothing is written.
    let packet = data_packet(1, 12, &bufs, 0, 0);
    match s.handle_publish("CC32xx/data/1", message(1, 2, &packet), 5) {
        PublishAction::Write { write, .. } => match write {
            WriteOutcome::Request(req) => assert_eq!(req.body, ""),
            _ => panic!("expected an empty write"),
        },
        _ => panic!("expected a data write"),
    }
    // With a usable time every sample is taken and the stray byte cannot be read.
    let packet = data_packet(2, 12, &bufs, u64::MAX / 2, 0);
    match s.handle_publish("CC32xx/data/1", message(1, 2, &packet), 5) {
        PublishAction::Write { write, .. } => {
            assert!(matches!(write, WriteOutcome::Panics(PanicReason::SamplesUnwritable)))
        }
        _ => panic!("expected a data write"),
    }
}

#[test]
fn test_pattern_topic() {
    let pieces = split_topic("esp32/data/cmd/32");
    assert_eq!(pieces[0], "esp32");
    assert_eq!(pieces[1], "data");
    assert_eq!(pieces[2], "cmd");
    assert_eq!(pieces.len(), 4);
    assert_eq!(parse_u8(&pieces[3]), Some(32));
}

#[test]
fn server_reckons_from_given_database_time() {
    let mut s = MqttServer::new_at("cfg.json".to_string(), &config(), 0, 1_000_000_000);
    // Synchronised 256000 ns after the database time: two periods of 128000 ns.
    let bufs = vec![buffer(2, &[0x00, 0x10, 0x02])];
    let packet = data_packet(1, 11, &bufs, 1_000_256_000, 1);
    match s.handle_publish("CC32xx/data/1", message(1, 2, &packet), 5) {
        PublishAction::Write { write: WriteOutcome::Request(req), .. } => {
            let t0 = (1_000_000_000u128 + 102 * 128000) / 1000;
            let t1 = (1_000_000_000u128 + 103 * 128000) / 1000;
            assert_eq!(
                req.body,
                format!("test_phase_3,device=test plhp-sensor=1 {}\ntest_phase_3,device=test plhp-sensor=2 {}\n", t0, t1)
            );
        }
        _ => panic!("expected a write"),
    }
}
