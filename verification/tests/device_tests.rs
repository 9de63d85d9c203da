use bytes::Bytes;
use wsn_server::comm::config::ConfigFile;
use wsn_server::comm::devices::cc32xx::{CC32xxDataBuffer, CC32xxDevice, CC32xxUniqueIdType};
use wsn_server::comm::devices::traits::{DataBuffer, Devices};
use wsn_server::comm::influx_error::InfluxErrorCode;
use wsn_server::comm::influx_state::DeviceState;
use wsn_server::comm::influx_info::InfoError;
use wsn_server::comm::influxdb::{InfluxDbClient, InfluxDbId, InfluxDbPrecision};
use wsn_server::comm::message::TimeStampCount;

fn config(devices: &[(&str, &str)]) -> ConfigFile {
    ConfigFile {
        url: "http://localhost".to_string(),
        port: "8086".to_string(),
        org_id: "org".to_string(),
        bucket: "bucket".to_string(),
        token: "SECRET".to_string(),
        devices: devices.iter().map(|(k, v)| (k.to_string(), v.to_string())).collect(),
    }
}

fn buffer(id: u64, packed: &[u8]) -> CC32xxDataBuffer {
    let mut v = id.to_le_bytes().to_vec();
    v.extend_from_slice(packed);
    CC32xxDataBuffer::from_bytes(Bytes::from(v))
}

#[test]
fn mac_string_is_upper_hex() {
    let mac = CC32xxUniqueIdType { id: [0x01, 0xAB, 0x00, 0xff, 0x10, 0x9c] };
    assert_eq!(mac.get_id_string(), "01:AB:00:FF:10:9C");
    assert_eq!(mac.to_string(), "01:AB:00:FF:10:9C");
}

#[test]
fn samples_unpack_twelve_bits() {
    let mut b = buffer(3, &[0x12, 0x34, 0x56, 0xFF, 0xFF, 0xFF]);
    assert_eq!(b.id(), 3);
    assert_eq!(b.next(), Some(0x123));
    assert_eq!(b.next(), Some(0x456));
    assert_eq!(b.next(), Some(0xFFF));
    assert_eq!(b.next(), Some(0xFFF));
    assert_eq!(b.next(), None);
    assert_eq!(b.len(), 0);
}

#[test]
fn exactly_three_bytes_are_taken_whole() {
    let mut b = buffer(0, &[0xAB, 0xCD, 0xEF]);
    assert_eq!(b.next(), Some(0xABC));
    assert_eq!(b.len(), 0);
    assert_eq!(b.next(), Some(0xDEF));
    assert_eq!(b.next(), None);
}

#[test]
fn registration_requires_configured_mac() {
    let mut dev = CC32xxDevice::new("cfg.json".to_string());
    let cfg = config(&[("01:02:03:04:05:06", "sensor-a")]);
    let unknown = CC32xxUniqueIdType { id: [9, 9, 9, 9, 9, 9] };
    assert_eq!(dev.add_unique_id(unknown, 0, Some(&cfg)).unwrap_err(), InfluxErrorCode::UniqueIdNotRegistered);
    assert_eq!(dev.add_unique_id(unknown, 0, None).unwrap_err(), InfluxErrorCode::NotValidConfigFile);
    assert_eq!(dev.check_id(InfluxDbId { id: 1 }), Err(InfluxErrorCode::IdDuplicated));
}

#[test]
fn registration_gives_stable_ids() {
    let mut dev = CC32xxDevice::new("cfg.json".to_string());
    let cfg = config(&[("01:02:03:04:05:06", "sensor-a"), ("0A:0B:0C:0D:0E:0F", "sensor-b")]);
    let a = CC32xxUniqueIdType { id: [1, 2, 3, 4, 5, 6] };
    let b = CC32xxUniqueIdType { id: [10, 11, 12, 13, 14, 15] };
    assert_eq!(dev.add_unique_id(a, 0, Some(&cfg)).unwrap(), InfluxDbId { id: 1 });
    assert_eq!(dev.add_unique_id(b, 0, Some(&cfg)).unwrap(), InfluxDbId { id: 2 });
    assert_eq!(dev.add_unique_id(a, 0, Some(&cfg)).unwrap(), InfluxDbId { id: 1 });
    assert_eq!(dev.check_id(InfluxDbId { id: 1 }), Ok(true));
    assert_eq!(dev.check_id(InfluxDbId { id: 2 }), Ok(true));
    assert_eq!(dev.check_id(InfluxDbId { id: 3 }), Err(InfluxErrorCode::IdDuplicated));
    assert_eq!(dev.check_id(InfluxDbId { id: 0 }), Err(InfluxErrorCode::IdDuplicated));
    assert_eq!(dev.get_name(InfluxDbId { id: 2 }).unwrap(), "sensor-b");
    assert_eq!(dev.get_sample_period(InfluxDbId { id: 1 }), Ok(128000));
    assert_eq!(dev.get_precision(InfluxDbId { id: 1 }), Ok(InfluxDbPrecision::MicroSeconds));
    assert_eq!(
        dev.get_data_header(InfluxDbId { id: 1 }).unwrap(),
        "test_phase_3,device=sensor-a plhp-sensor"
    );
    assert_eq!(dev.get_name(InfluxDbId { id: 7 }).unwrap_err(), InfluxErrorCode::IdDuplicated);
    assert_eq!(dev.get_sample_period(InfluxDbId { id: 7 }), Err(InfluxErrorCode::IdNotValid));
}

#[test]
fn packet_counting_through_registry() {
    let mut dev = CC32xxDevice::new("cfg.json".to_string());
    let cfg = config(&[("01:02:03:04:05:06", "sensor-a")]);
    let id = dev.add_unique_id(CC32xxUniqueIdType { id: [1, 2, 3, 4, 5, 6] }, 0, Some(&cfg)).unwrap();
    assert_eq!(dev.add_data_packet(id, 100, 5), Ok(0));
    assert_eq!(dev.add_data_packet(id, 100, 6), Ok(0));
    assert_eq!(dev.add_data_packet(id, 100, 6), Err(InfluxErrorCode::DataIdDuplicated));
    assert_eq!(dev.add_data_packet(id, 100, 10), Ok(4));
    assert_eq!(dev.add_data_packet(InfluxDbId { id: 9 }, 1, 1), Err(InfluxErrorCode::IdNotValid));
}

#[test]
fn offset_after_sync() {
    let mut dev = CC32xxDevice::new("cfg.json".to_string());
    let cfg = config(&[("01:02:03:04:05:06", "sensor-a")]);
    let id = dev.add_unique_id(CC32xxUniqueIdType { id: [1, 2, 3, 4, 5, 6] }, 0, Some(&cfg)).unwrap();
    let sync = TimeStampCount { timestamp: 1_000_000, count: 2 };
    assert_eq!(dev.sync_device(id, sync, 0), Ok(()));
    // 250 counts since the synchronised count of 200, one period of 128000 ns each.
    assert_eq!(dev.get_offset(id, 450), Ok(1_000_000 + 250 * 128000));
    // An earlier count is taken from zero.
    assert_eq!(dev.get_offset(id, 50), Ok(1_000_000 + 50 * 128000));
    assert_eq!(dev.sync_device(InfluxDbId { id: 5 }, sync, 0), Err(InfluxErrorCode::IdDuplicated));
    assert_eq!(dev.get_offset(InfluxDbId { id: 5 }, 1), Err(InfluxErrorCode::IdDuplicated));
}

#[test]
fn db_body_lines_and_timestamps() {
    let mut dev = CC32xxDevice::new("cfg.json".to_string());
    let cfg = config(&[("01:02:03:04:05:06", "s1")]);
    let id = dev.add_unique_id(CC32xxUniqueIdType { id: [1, 2, 3, 4, 5, 6] }, 0, Some(&cfg)).unwrap();
    // Buffer 2, synchronised at count 1: the first sample is 100 counts after the sync.
    let mut b = buffer(2, &[0x00, 0x10, 0x02]);
    let server = 1_000_000_000u128;
    let sync = TimeStampCount { timestamp: 1_000_256_000, count: 1 };
    let (body, last) = b.db_create_body(id, &dev, server, sync).unwrap();
    // interval = 256000 / 128000 = 2 counts; sample k: server + (100 + k + 2) * 128000 ns, in microseconds.
    let t0 = (server + 102 * 128000) / 1000;
    let t1 = (server + 103 * 128000) / 1000;
    assert_eq!(body, format!("test_phase_3,device=s1 plhp-sensor=1 {}\ntest_phase_3,device=s1 plhp-sensor=2 {}\n", t0, t1));
    assert_eq!(last, t1);
    assert_eq!(b.get_last_time(), Some(t1));
}

#[test]
fn db_body_errors() {
    let mut dev = CC32xxDevice::new("cfg.json".to_string());
    let cfg = config(&[("01:02:03:04:05:06", "s1")]);
    let id = dev.add_unique_id(CC32xxUniqueIdType { id: [1, 2, 3, 4, 5, 6] }, 0, Some(&cfg)).unwrap();
    let mut early = buffer(2, &[1, 2, 3]);
    let sync = TimeStampCount { timestamp: 10, count: 1 };
    assert_eq!(early.db_create_body(id, &dev, 20, sync).unwrap_err(), InfluxErrorCode::TimeBeforeServerTime);
    let mut old = buffer(0, &[1, 2, 3]);
    assert_eq!(old.db_create_body(id, &dev, 5, sync).unwrap_err(), InfluxErrorCode::TimeBeforeLastSync);
    let mut unknown = buffer(0, &[1, 2, 3]);
    assert_eq!(
        unknown.db_create_body(InfluxDbId { id: 4 }, &dev, 5, sync).unwrap_err(),
        InfluxErrorCode::IdDuplicated
    );
    let mut empty = buffer(0, &[]);
    assert_eq!(empty.db_create_body(id, &dev, 5, sync).unwrap(), (String::new(), 0));
}

#[test]
fn device_state_counts_packets() {
    let mut s = DeviceState::new();
    assert_eq!(s.add_data_packet(10, 3), Ok(0));
    assert_eq!(s.add_data_packet(10, 3), Err(InfluxErrorCode::DataIdDuplicated));
    assert_eq!(s.add_data_packet(10, 4), Ok(0));
    assert_eq!(s.add_data_packet(10, 9), Ok(5));
    // Counting restarts at zero: nothing lost.
    assert_eq!(s.add_data_packet(10, 0), Ok(0));
    // A jump forward loses the difference.
    assert_eq!(s.add_data_packet(10, 7), Ok(7));
    // The count goes back but not to zero: the new count is taken as lost.
    assert_eq!(s.add_data_packet(10, 2), Ok(2));
    assert_eq!(s.get_count_offset(0), 0);
}

#[test]
fn device_state_sync() {
    let mut s = DeviceState::new();
    assert_eq!(s.get_last_sync().count, 0);
    let t = TimeStampCount { timestamp: 77, count: 5 };
    assert_eq!(s.sync_state(t, 0, 1), Ok(()));
    assert_eq!(s.get_last_sync(), t);
}

#[test]
fn static_device_facts() {
    assert_eq!(CC32xxDevice::get_device_topic(), "CC32xx");
    assert_eq!(CC32xxDevice::get_maximum_n_devices(), 40);
    let c = CC32xxDevice::create_db_context("x".to_string());
    assert_eq!(c.get_sample_period(), Ok(128000));
    assert_eq!(c.get_precision(), Ok(InfluxDbPrecision::MicroSeconds));
    assert_eq!(c.get_name().unwrap(), "x");
    assert_eq!(c.get_precision_multiplier(), 1000000);
}

#[test]
fn stray_byte_with_time_error() {
    let mut dev = CC32xxDevice::new("cfg.json".to_string());
    let cfg = config(&[("01:02:03:04:05:06", "s1")]);
    let id = dev.add_unique_id(CC32xxUniqueIdType { id: [1, 2, 3, 4, 5, 6] }, 0, Some(&cfg)).unwrap();
    // A triple and a stray byte: the error is found at the first sample, before the stray byte.
    let mut b = buffer(0, &[0x00, 0x10, 0x02, 0x07]);
    let sync = TimeStampCount { timestamp: 10, count: 0 };
    assert_eq!(b.db_create_body(id, &dev, 20, sync).unwrap_err(), InfluxErrorCode::TimeBeforeServerTime);
    assert_eq!(b.next(), Some(2));
}

fn client() -> InfluxDbClient {
    InfluxDbClient::new(
        "http://db".to_string(),
        "8086".to_string(),
        "org".to_string(),
        "bkt".to_string(),
        "SECRET-REDACTED".to_string(),
    )
}

#[test]
fn write_data_request() {
    let mut dev = CC32xxDevice::new("cfg.json".to_string());
    let cfg = config(&[("01:02:03:04:05:06", "s1")]);
    let id = dev.add_unique_id(CC32xxUniqueIdType { id: [1, 2, 3, 4, 5, 6] }, 0, Some(&cfg)).unwrap();
    let c = client();
    let sync = TimeStampCount { timestamp: u64::MAX / 2, count: 0 };
    let bufs = vec![buffer(0, &[0x00, 0x10, 0x02]), buffer(1, &[0x00, 0x30, 0x04])];
    let req = c.write_data(id, &dev, sync, bufs).unwrap();
    assert_eq!(req.url, "http://db:8086/api/v2/write?orgID=org&bucket=bkt&precision=us");
    assert_eq!(req.header_key, "Authorization");
    assert_eq!(req.header_value, "Token SECRET-REDACTED");
    let values: Vec<&str> = req.body.lines().map(|l| l.split(' ').nth(1).unwrap()).collect();
    assert_eq!(values, vec!["plhp-sensor=1", "plhp-sensor=2", "plhp-sensor=3", "plhp-sensor=4"]);
    // An unknown device gives the error of its precision.
    let bufs = vec![buffer(0, &[0x00, 0x10, 0x02])];
    assert_eq!(c.write_data(InfluxDbId { id: 9 }, &dev, sync, bufs).err(), Some(InfluxErrorCode::IdDuplicated));
}

#[test]
fn log_info_is_stamped_now() {
    let c = client();
    let before = std::time::SystemTime::now().duration_since(std::time::UNIX_EPOCH).unwrap().as_nanos();
    let info = InfoError { error: InfluxErrorCode::TimeError, error_info: "x".to_string() };
    let req = c.log_info("dev".to_string(), InfluxDbId { id: 1 }, info);
    assert_eq!(req.url, "http://db:8086/api/v2/write?orgID=org&bucket=bkt&precision=ns");
    let prefix = "error,device=dev type_error=\"TimeError\",info_error=\"x\" ";
    assert!(req.body.starts_with(prefix));
    let t: u128 = req.body[prefix.len()..].parse().unwrap();
    assert!(t >= before);
}

#[test]
fn clock_readings_taken_as_arguments() {
    let t = TimeStampCount::at((1u128 << 64) + 5);
    assert_eq!(t, TimeStampCount { timestamp: 5, count: 0 });
    let s = DeviceState::new_at(1_700_000_000_000_000_000);
    assert_eq!(s.get_time_start(), 1_700_000_000_000_000_000);
    assert_eq!(s.get_last_sync(), TimeStampCount { timestamp: 1_700_000_000_000_000_000, count: 0 });
    assert_eq!(s.get_total_packet(), 0);
    assert_eq!(s.get_count_offset(9), 0);
    let c = InfluxDbClient::new_at(
        "http://db".to_string(),
        "1".to_string(),
        "o".to_string(),
        "b".to_string(),
        "t".to_string(),
        42,
    );
    assert_eq!(c.last_db_timestamp(), 42);
}

#[test]
fn write_data_of_unknown_device_without_buffers() {
    let dev = CC32xxDevice::new("cfg.json".to_string());
    let sync = TimeStampCount { timestamp: 0, count: 0 };
    assert_eq!(client().write_data(InfluxDbId { id: 3 }, &dev, sync, vec![]).err(), Some(InfluxErrorCode::IdDuplicated));
}

#[test]
fn buffer_yields_samples_then_none() {
    let mut b = CC32xxDataBuffer::new(Bytes::from(vec![0, 0, 0, 0, 0, 0, 0, 0, 0x12, 0x34, 0x56]));
    assert_eq!(b.len(), 3);
    assert_eq!(b.next(), Some(0x123));
    assert_eq!(b.next(), Some(0x456));
    assert_eq!(b.next(), None);
    assert_eq!(b.next(), None);
}

#[test]
fn written_buffer_is_empty() {
    let mut dev = CC32xxDevice::new("cfg.json".to_string());
    let cfg = config(&[("01:02:03:04:05:06", "s1")]);
    let id = dev.add_unique_id(CC32xxUniqueIdType { id: [1, 2, 3, 4, 5, 6] }, 0, Some(&cfg)).unwrap();
    let mut b = buffer(0, &[0x00, 0x10, 0x02]);
    let sync = TimeStampCount { timestamp: 1000, count: 0 };
    assert!(b.db_create_body(id, &dev, 10, sync).is_ok());
    assert_eq!(b.len(), 0);
    assert_eq!(b.next(), None);
}
