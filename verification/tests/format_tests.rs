use wsn_server::comm::influx_error::InfluxErrorCode;
use wsn_server::comm::influx_info::{InfoError, InfoRssi, InfluxLogInfo};
use wsn_server::comm::influxdb::{InfluxDbClient, InfluxDbId, InfluxDbPrecision};
use wsn_server::comm::message::CmdRssi;
use wsn_server::text::{decimal_string, push_decimal, push_hex_byte, push_signed};

fn client() -> InfluxDbClient {
    InfluxDbClient::new(
        "http://localhost".to_string(),
        "8086".to_string(),
        "org".to_string(),
        "bucket".to_string(),
        "SECRET-REDACTED".to_string(),
    )
}

#[test]
fn decimal_text() {
    assert_eq!(decimal_string(0), "0");
    assert_eq!(decimal_string(7), "7");
    assert_eq!(decimal_string(10), "10");
    assert_eq!(decimal_string(u128::MAX), u128::MAX.to_string());
    let mut s = "n=".to_string();
    push_decimal(&mut s, 1234567890);
    assert_eq!(s, "n=1234567890");
}

#[test]
fn signed_text() {
    let mut s = String::new();
    push_signed(&mut s, -42);
    push_signed(&mut s, 0);
    push_signed(&mut s, i64::MIN);
    push_signed(&mut s, 5);
    assert_eq!(s, format!("-420{}5", i64::MIN));
}

#[test]
fn hex_text() {
    let mut s = String::new();
    push_hex_byte(&mut s, 0x00);
    push_hex_byte(&mut s, 0x9c);
    push_hex_byte(&mut s, 0xff);
    push_hex_byte(&mut s, 0x0a);
    assert_eq!(s, "009CFF0A");
}

#[test]
fn precision_multipliers() {
    assert_eq!(InfluxDbPrecision::Seconds.get_multiplier(), 1);
    assert_eq!(InfluxDbPrecision::MiliSeconds.get_multiplier(), 1000);
    assert_eq!(InfluxDbPrecision::MicroSeconds.get_multiplier(), 1000000);
    assert_eq!(InfluxDbPrecision::NanoSeconds.get_multiplier(), 1000000000);
}

#[test]
fn precision_converts_durations() {
    let d: u128 = 3_123_456_789;
    assert_eq!(InfluxDbPrecision::Seconds.convert_duration(d), 3);
    assert_eq!(InfluxDbPrecision::MiliSeconds.convert_duration(d), 3123);
    assert_eq!(InfluxDbPrecision::MicroSeconds.convert_duration(d), 3_123_456);
    assert_eq!(InfluxDbPrecision::NanoSeconds.convert_duration(d), d);
    assert_eq!(InfluxDbPrecision::Seconds.convert_duration(999_999_999), 0);
}

#[test]
fn precision_names() {
    assert_eq!(InfluxDbPrecision::Seconds.precision_db_url(), "s");
    assert_eq!(InfluxDbPrecision::MiliSeconds.precision_db_url(), "ms");
    assert_eq!(InfluxDbPrecision::MicroSeconds.precision_db_url(), "us");
    assert_eq!(InfluxDbPrecision::NanoSeconds.precision_db_url(), "ns");
    assert_eq!(InfluxDbPrecision::MicroSeconds.to_string(), "us");
}

#[test]
fn id_text() {
    assert_eq!(InfluxDbId { id: 0 }.to_string(), "0");
    assert_eq!(InfluxDbId { id: 4294967295 }.to_string(), "4294967295");
}

#[test]
fn error_names() {
    assert_eq!(InfluxErrorCode::HeaderLengthIncorrect.to_string(), "HeaderLengthIncorrect");
    assert_eq!(InfluxErrorCode::DataIdDuplicated.to_string(), "DataIdDuplicated");
    assert_eq!(InfluxErrorCode::UniqueIdNotRegistered.to_string(), "UniqueIdNotRegistered");
    assert_eq!(InfluxErrorCode::ConfigPathDoesntExits.to_string(), "ConfigPathDoesntExits");
}

#[test]
fn rssi_line_text() {
    let info = InfoRssi::from_cmd(CmdRssi { data_rssi: -61, ctrl_rssi: 12, error_pkt_num: 3 });
    assert_eq!(info.data_rssi, -61);
    assert_eq!(
        info.gen_body("s1".to_string(), 1700000000000000000),
        "rssi,device=s1 data_rssi=-61,ctrl_rssi=12,error_pkt_num=3 1700000000000000000"
    );
}

#[test]
fn error_line_text() {
    let info = InfoError { error: InfluxErrorCode::IdNotValid, error_info: "17".to_string() };
    assert_eq!(
        info.gen_body("Server".to_string(), 42),
        "error,device=Server type_error=\"IdNotValid\",info_error=\"17\" 42"
    );
}

#[test]
fn info_request_targets_nanosecond_write() {
    let c = client();
    let info = InfoError { error: InfluxErrorCode::TimeError, error_info: "x".to_string() };
    let req = c.log_info_request_at("dev".to_string(), InfluxDbId { id: 1 }, info, 9);
    assert_eq!(req.url, "http://localhost:8086/api/v2/write?orgID=org&bucket=bucket&precision=ns");
    assert_eq!(req.header_key, "Authorization");
    assert_eq!(req.header_value, "Token SECRET-REDACTED");
    assert_eq!(req.body, "error,device=dev type_error=\"TimeError\",info_error=\"x\" 9");
}

#[test]
fn client_starts_at_the_clock() {
    let before = std::time::SystemTime::now()
        .duration_since(std::time::UNIX_EPOCH)
        .unwrap()
        .as_nanos();
    let c = client();
    assert!(c.last_db_timestamp() >= before);
}
