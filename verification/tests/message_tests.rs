use bytes::Bytes;
use wsn_server::comm::devices::cc32xx::CC32xxDataBuffer;
use wsn_server::comm::influx_error::InfluxErrorCode;
use wsn_server::comm::message::{
    decode, decode_data, decode_msg, decode_msg_cmd, decode_msg_data, encode_msg_cmd, CmdRespId,
    CmdSync, MsgCmdType, MsgContainer, MsgDataHeader, MsgHeader, MsgType, TimeStampCount,
};

fn data_header_bytes(data_id: u32, buffer_size: u16, n_buffers: u16, ts: u64, count: u64) -> Vec<u8> {
    let mut v = Vec::new();
    v.extend_from_slice(&data_id.to_le_bytes());
    v.extend_from_slice(&buffer_size.to_le_bytes());
    v.extend_from_slice(&n_buffers.to_le_bytes());
    v.extend_from_slice(&ts.to_le_bytes());
    v.extend_from_slice(&count.to_le_bytes());
    v
}

#[test]
fn decode_msg_accepts_matching_length() {
    let mut data = Bytes::from(vec![7u8, 2, 6, 0, 0xAA, 0xBB]);
    let header = decode_msg(&mut data).unwrap();
    assert_eq!(header, MsgHeader { device_id: 7, msg_type: 2, len: 6 });
    assert_eq!(&data[..], &[0xAA, 0xBB]);
}

#[test]
fn decode_msg_rejects_wrong_length() {
    let mut data = Bytes::from(vec![7u8, 2, 9, 0, 0xAA]);
    assert_eq!(decode_msg(&mut data).unwrap_err(), InfluxErrorCode::HeaderLengthIncorrect);
    assert_eq!(&data[..], &[0xAA]);
}

#[test]
fn decode_msg_compares_length_modulo_65536() {
    let mut v = vec![1u8, 1, 4, 0];
    v.resize(65536 + 4, 0);
    let mut data = Bytes::from(v);
    assert_eq!(decode_msg(&mut data).unwrap().len, 4);
}

#[test]
fn decode_msg_cmd_ready() {
    let mut data = Bytes::from(vec![1u8, 0, 1, 2, 3, 4, 5, 6, 0x00, 0xF4, 0x01, 0, 0, 0, 0, 0]);
    match decode_msg_cmd(&mut data).unwrap() {
        MsgCmdType::Ready(c) => {
            assert_eq!(c.mac, [1, 2, 3, 4, 5, 6]);
            let f = c.sample_frequency;
            assert_eq!(f, 128000);
        }
        _ => panic!("not a ready command"),
    }
}

#[test]
fn decode_msg_cmd_rssi_signed_values() {
    let mut data = Bytes::from(vec![4u8, 0, 0xFE, 0xFF, 0x10, 0x00, 7, 0, 0, 0]);
    match decode_msg_cmd(&mut data).unwrap() {
        MsgCmdType::Rssi(c) => {
            assert_eq!(c.data_rssi, -2);
            assert_eq!(c.ctrl_rssi, 16);
            assert_eq!(c.error_pkt_num, 7);
        }
        _ => panic!("not an rssi command"),
    }
}

#[test]
fn decode_msg_cmd_sync() {
    let mut v = vec![3u8, 0];
    v.extend_from_slice(&5u64.to_le_bytes());
    v.extend_from_slice(&123456789u64.to_le_bytes());
    let mut data = Bytes::from(v);
    match decode_msg_cmd(&mut data).unwrap() {
        MsgCmdType::SyncChrono(CmdSync { buffer_count, timestamp_ns }) => {
            assert_eq!(buffer_count, 5);
            assert_eq!(timestamp_ns, 123456789);
        }
        _ => panic!("not a sync command"),
    }
}

#[test]
fn decode_msg_cmd_errors() {
    let mut short = Bytes::from(vec![1u8, 0, 1, 2, 3]);
    assert_eq!(decode_msg_cmd(&mut short).unwrap_err(), InfluxErrorCode::CmdIncorrectLength);
    let mut unknown = Bytes::from(vec![9u8, 0, 1, 2]);
    assert_eq!(decode_msg_cmd(&mut unknown).unwrap_err(), InfluxErrorCode::CmdTypeNotImplemented);
    let mut resp = Bytes::from(vec![2u8, 0, 1, 2, 3, 4, 5, 6, 1, 0]);
    assert_eq!(decode_msg_cmd(&mut resp).unwrap_err(), InfluxErrorCode::CmdTypeNotImplemented);
}

#[test]
fn decode_msg_data_checks_buffers() {
    let mut v = data_header_bytes(3, 10, 2, 100, 4);
    v.extend_from_slice(&[0u8; 20]);
    let mut data = Bytes::from(v.clone());
    let h = decode_msg_data(&mut data).unwrap();
    assert_eq!(
        h,
        MsgDataHeader {
            data_id: 3,
            buffer_size: 10,
            n_buffers: 2,
            timestamp: TimeStampCount { timestamp: 100, count: 4 }
        }
    );
    assert_eq!(data.len(), 20);

    let mut v2 = data_header_bytes(3, 10, 3, 100, 4);
    v2.extend_from_slice(&[0u8; 20]);
    assert_eq!(decode_msg_data(&mut Bytes::from(v2)).unwrap_err(), InfluxErrorCode::IncorrectNumBuffers);

    let mut v3 = data_header_bytes(3, 10, 2, 100, 4);
    v3.extend_from_slice(&[0u8; 21]);
    assert_eq!(decode_msg_data(&mut Bytes::from(v3)).unwrap_err(), InfluxErrorCode::NumBuffersFrac);

    let mut v4 = data_header_bytes(3, 0, 0, 100, 4);
    v4.extend_from_slice(&[0u8; 4]);
    assert_eq!(decode_msg_data(&mut Bytes::from(v4)).unwrap_err(), InfluxErrorCode::NumBuffersFrac);
}

#[test]
fn decode_data_splits_buffers() {
    let mut v = Vec::new();
    v.extend_from_slice(&7u64.to_le_bytes());
    v.extend_from_slice(&[0x12, 0x34, 0x56]);
    v.extend_from_slice(&8u64.to_le_bytes());
    v.extend_from_slice(&[0xAB, 0xCD, 0xEF]);
    let mut data = Bytes::from(v);
    let bufs: Vec<CC32xxDataBuffer> = decode_data(&mut data, 11).unwrap();
    assert_eq!(bufs.len(), 2);
    assert_eq!(bufs[0].id(), 7);
    assert_eq!(bufs[1].id(), 8);
    assert_eq!(bufs[1].len(), 3);
    assert_eq!(data.len(), 0);

    let mut odd = Bytes::from(vec![0u8; 23]);
    assert_eq!(
        decode_data::<CC32xxDataBuffer>(&mut odd, 11).err(),
        Some(InfluxErrorCode::NumBuffersFrac)
    );
    assert_eq!(odd.len(), 23);
}

#[test]
fn decode_whole_data_message() {
    let mut body = data_header_bytes(9, 11, 1, 0, 0);
    body.extend_from_slice(&42u64.to_le_bytes());
    body.extend_from_slice(&[1, 2, 3]);
    let total = 4 + body.len();
    let mut v = vec![5u8, 2, total as u8, 0];
    v.extend_from_slice(&body);
    let (h, c) = decode::<CC32xxDataBuffer>(Bytes::from(v));
    assert_eq!(h, MsgHeader { device_id: 5, msg_type: 2, len: total as u16 });
    match c {
        MsgContainer::MsgDataContainer(id, bufs) => {
            assert_eq!(id, 9);
            assert_eq!(bufs.len(), 1);
            assert_eq!(bufs[0].id(), 42);
        }
        _ => panic!("expected data"),
    }
}

#[test]
fn decode_other_messages_give_nothing() {
    let (h, c) = decode::<CC32xxDataBuffer>(Bytes::from(vec![5u8, 1, 4, 0]));
    assert_eq!(h.msg_type, 1);
    assert!(matches!(c, MsgContainer::MsgEmpty));
    let (_, c2) = decode::<CC32xxDataBuffer>(Bytes::from(vec![5u8, 2, 9, 0]));
    assert!(matches!(c2, MsgContainer::MsgEmpty));
}

#[test]
fn encode_resp_id_layout() {
    let out = encode_msg_cmd(MsgCmdType::RespId(CmdRespId { mac: [1, 2, 3, 4, 5, 6], device_id: 0x0102 }))
        .unwrap();
    assert_eq!(&out[..], &[0, 1, 14, 0, 2, 0, 1, 2, 3, 4, 5, 6, 0x02, 0x01]);
}

#[test]
fn encoded_response_passes_header_check() {
    let out = encode_msg_cmd(MsgCmdType::RespId(CmdRespId { mac: [9; 6], device_id: 3 })).unwrap();
    let mut data = out.clone();
    let h = decode_msg(&mut data).unwrap();
    assert_eq!(h, MsgHeader { device_id: 0, msg_type: 1, len: 14 });
}

#[test]
fn encode_other_commands_fail() {
    assert_eq!(
        encode_msg_cmd(MsgCmdType::SyncChrono(CmdSync { buffer_count: 1, timestamp_ns: 2 })).err(),
        Some(InfluxErrorCode::CmdTypeNotImplemented)
    );
    let rssi = wsn_server::comm::message::CmdRssi { data_rssi: 1, ctrl_rssi: 2, error_pkt_num: 3 };
    assert_eq!(encode_msg_cmd(MsgCmdType::Rssi(rssi)).err(), Some(InfluxErrorCode::RespCmdNotImplemented));
}

#[test]
fn display_texts() {
    assert_eq!(MsgHeader { device_id: 1, msg_type: 2, len: 30 }.to_string(), "Devide ID: 1, MSG_TYPE: 2, len: 30");
    let dh = MsgDataHeader { data_id: 5, buffer_size: 36, n_buffers: 32, timestamp: TimeStampCount { timestamp: 0, count: 0 } };
    assert_eq!(dh.to_string(), "Data ID: 5, Buffer size: 36, n buffers: 32");
    assert_eq!(MsgType::MqttCmd.to_string(), "MQTT COMMAND");
    assert_eq!(MsgType::MqttData.to_string(), "MQTT DATA");
    assert_eq!(MsgType::MqttCmd.code(), 1);
    assert_eq!(MsgType::MqttData.code(), 2);
}

#[test]
fn timestamp_count_new_starts_at_zero() {
    let t = TimeStampCount::new();
    assert_eq!(t.count, 0);
    assert!(t.timestamp > 0);
}

#[test]
fn test_message_frames_samples() {
    let mut samples = [0u8; 32];
    for (i, s) in samples.iter_mut().enumerate() {
        *s = i as u8 * 3;
    }
    let m = wsn_server::comm::message::data_test_message(samples);
    assert_eq!(m.len(), 1180);
    assert_eq!(&m[0..4], &[7, 2, 0x9c, 0x04]);
    assert_eq!(&m[4..28], &[0, 0, 0, 0, 36, 0, 32, 0, 0, 0, 0, 0, 0, 0, 0, 0, 0, 0, 0, 0, 0, 0, 0, 0]);
    for k in 0..32usize {
        assert_eq!(&m[28 + 36 * k..32 + 36 * k], &(k as u32).to_le_bytes());
        assert_eq!(&m[32 + 36 * k..64 + 36 * k], &samples[..]);
    }
    let (h, c) = decode::<CC32xxDataBuffer>(m);
    assert_eq!(h, MsgHeader { device_id: 7, msg_type: 2, len: 1180 });
    match c {
        MsgContainer::MsgDataContainer(id, bufs) => {
            assert_eq!(id, 0);
            assert_eq!(bufs.len(), 32);
            assert!(bufs.iter().all(|b| b.len() == 28));
        }
        _ => panic!("expected data"),
    }
}
