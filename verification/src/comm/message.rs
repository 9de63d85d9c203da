//! The MQTT packets exchanged with the devices: a four-byte message header
//! (device id, message type, total length), then either a command (two-byte
//! command id and a fixed record) or a data packet (a 24-byte data header and
//! `n_buffers` buffers of `buffer_size` bytes). All integers are little endian.
use crate::buf::{bytes_as_slice, bytes_from_vec, bytes_len, bytes_split_to, bytes_view};
use crate::codec::{le_i16, le_u16, le_u32, le_u64, read_i16_i16_u32, read_mac_u64, read_u16, read_u32_u16_u16_u64_u64, read_u64_u64, read_u8_u8_u16, u16_le_bytes, u32_le_bytes, u64_le_bytes, write_mac_u16, write_u16, write_u32, write_u64,
    write_u8_u8_u16,
};
use crate::clock::unix_time_nanos;
use crate::text::{dec, push_decimal};
use crate::comm::devices::traits::DataBuffer;
use crate::comm::influx_error::InfluxErrorCode;
use bytes::Bytes;
use vstd::prelude::*;

verus! {

/// Device id the server writes in the header of its own messages.
pub const SERVER_ID: u8 = 0;

/// Wire length of a message header.
pub const MSG_HEADER_LEN: usize = 4;

/// Wire length of a command header.
pub const MSG_CMD_HEADER_LEN: usize = 2;

/// Wire length of a data header.
pub const MSG_DATA_HEADER_LEN: usize = 24;

/// Wire length of a `CmdReady` record.
pub const CMD_READY_LEN: usize = 14;

/// Wire length of a `CmdSync` record.
pub const CMD_SYNC_LEN: usize = 16;

/// Wire length of a `CmdRespId` record.
pub const CMD_RESP_ID_LEN: usize = 8;

/// Wire length of a `CmdRssi` record.
pub const CMD_RSSI_LEN: usize = 8;

/// Command identifiers carried by a command header.
#[derive(PartialEq, Eq, Structural, Copy, Clone)]
enum CmdId {
    DeviceReady,
    RespId,
    DeviceSync,
    Rssi,
}

impl CmdId {
    /// Number of the command on the wire.
    fn code(self) -> (c: u16)
        ensures
            c == cmd_code(self),
    {
        match self {
            CmdId::DeviceReady => 1,
            CmdId::RespId => 2,
            CmdId::DeviceSync => 3,
            CmdId::Rssi => 4,
        }
    }
}

spec fn cmd_code(id: CmdId) -> u16 {
    match id {
        CmdId::DeviceReady => 1,
        CmdId::RespId => 2,
        CmdId::DeviceSync => 3,
        CmdId::Rssi => 4,
    }
}

/// A decoded command.
#[derive(Debug)]
pub enum MsgCmdType {
    Ready(CmdReady),
    SyncChrono(CmdSync),
    RespId(CmdRespId),
    Rssi(CmdRssi),
}

/// Header of a command: which command follows.
pub struct MsgCmdHeader {
    id: u16,
}

/// A command: its header and the record that follows.
pub struct MsgCmd {
    id: MsgCmdHeader,
    payload: Bytes,
}

/// Sent by a device when it starts: its MAC and its sampling frequency.
#[derive(Debug)]
pub struct CmdReady {
    pub mac: [u8; 6],
    pub sample_frequency: u64,
}

/// Sent by a device to tie a buffer count to its clock.
#[derive(Debug)]
pub struct CmdSync {
    pub buffer_count: u64,
    pub timestamp_ns: u64,
}

/// Sent by the server: the local id given to the device with that MAC.
#[derive(Debug)]
pub struct CmdRespId {
    pub mac: [u8; 6],
    pub device_id: u16,
}

/// Signal strength report of a device.
#[derive(Debug)]
pub struct CmdRssi {
    pub data_rssi: i16,
    pub ctrl_rssi: i16,
    pub error_pkt_num: u32,
}

/// Header at the start of every message.
#[derive(Debug, PartialEq, Eq, Structural, Copy, Clone)]
pub struct MsgHeader {
    pub device_id: u8,
    pub msg_type: u8,
    pub len: u16,
}

/// A message: its header and the bytes that follow.
pub struct Msg {
    header: MsgHeader,
    payload: Bytes,
}

/// Header of a data packet.
#[derive(Debug, PartialEq, Eq, Structural, Copy, Clone)]
pub struct MsgDataHeader {
    pub data_id: u32,
    pub buffer_size: u16,
    pub n_buffers: u16,
    pub timestamp: TimeStampCount,
}

/// A device clock reading together with the buffer count it belongs to.
#[derive(Debug, PartialEq, Eq, Structural, Copy, Clone)]
pub struct TimeStampCount {
    pub timestamp: u64,
    pub count: u64,
}

impl TimeStampCount {
    /// The current time with a count of zero.
    pub fn new() -> (r: TimeStampCount)
        ensures
            r.count == 0,
    {
        TimeStampCount::at(unix_time_nanos())
    }

    /// The time `now_ns` (nanoseconds since the epoch, kept modulo 2^64) with a count
    /// of zero.
    pub fn at(now_ns: u128) -> (r: TimeStampCount)
        ensures
            r.timestamp == now_ns % 0x1_0000_0000_0000_0000,
            r.count == 0,
    {
        TimeStampCount { timestamp: (now_ns % 0x1_0000_0000_0000_0000) as u64, count: 0 }
    }
}

/// A data packet: its header and the buffers that follow.
pub struct MsgData {
    header: MsgDataHeader,
    payload: Bytes,
}

/// What a whole message decodes to.
pub enum MsgContainer<T> {
    MsgDataContainer(u32, Vec<T>),
    MsgCmdContainer(u32),
    MsgError,
    MsgEmpty,
}

/// The two kinds of message.
#[derive(Debug, PartialEq, Eq, Structural, Copy, Clone)]
pub enum MsgType {
    MqttCmd,
    MqttData,
}

impl MsgType {
    /// Number of the message type on the wire.
    pub fn code(self) -> (c: u8)
        ensures
            c == msg_type_code(self),
    {
        match self {
            MsgType::MqttCmd => 1,
            MsgType::MqttData => 2,
        }
    }
}

impl MsgType {
    /// The type as it displays.
    pub fn to_string(&self) -> (s: String)
        ensures
            s@ == (match *self {
                MsgType::MqttCmd => "MQTT COMMAND"@,
                MsgType::MqttData => "MQTT DATA"@,
            }),
    {
        match self {
            MsgType::MqttCmd => String::from_str("MQTT COMMAND"),
            MsgType::MqttData => String::from_str("MQTT DATA"),
        }
    }
}

impl MsgHeader {
    /// The header as it displays.
    pub fn to_string(&self) -> (s: String)
        ensures
            s@ == "Devide ID: "@ + dec(self.device_id as nat) + ", MSG_TYPE: "@ + dec(
                self.msg_type as nat,
            ) + ", len: "@ + dec(self.len as nat),
    {
        let mut s = String::from_str("Devide ID: ");
        push_decimal(&mut s, self.device_id as u128);
        s.append(", MSG_TYPE: ");
        push_decimal(&mut s, self.msg_type as u128);
        s.append(", len: ");
        push_decimal(&mut s, self.len as u128);
        s
    }
}

impl MsgDataHeader {
    /// The header as it displays.
    pub fn to_string(&self) -> (s: String)
        ensures
            s@ == "Data ID: "@ + dec(self.data_id as nat) + ", Buffer size: "@ + dec(
                self.buffer_size as nat,
            ) + ", n buffers: "@ + dec(self.n_buffers as nat),
    {
        let mut s = String::from_str("Data ID: ");
        push_decimal(&mut s, self.data_id as u128);
        s.append(", Buffer size: ");
        push_decimal(&mut s, self.buffer_size as u128);
        s.append(", n buffers: ");
        push_decimal(&mut s, self.n_buffers as u128);
        s
    }
}

/// Number of a message type on the wire.
pub open spec fn msg_type_code(t: MsgType) -> u8 {
    match t {
        MsgType::MqttCmd => 1,
        MsgType::MqttData => 2,
    }
}

// ----- what the bytes mean -----

/// The message header in the first four bytes of `s`.
pub open spec fn header_of(s: Seq<u8>) -> MsgHeader {
    MsgHeader { device_id: s[0], msg_type: s[1], len: le_u16(s, 2) }
}

/// Outcome of `decode_msg` on a message `s`: the header, unless the length it
/// declares differs from the message length taken modulo 2^16.
pub open spec fn spec_decode_msg(s: Seq<u8>) -> Result<MsgHeader, InfluxErrorCode> {
    let h = header_of(s);
    if h.len != s.len() % 65536 {
        Err(InfluxErrorCode::HeaderLengthIncorrect)
    } else {
        Ok(h)
    }
}

/// `c` holds the `CmdReady` record at the start of `p`.
pub open spec fn ready_from(c: CmdReady, p: Seq<u8>) -> bool {
    c.mac@ == p.take(6) && c.sample_frequency == le_u64(p, 6)
}

/// `c` holds the `CmdSync` record at the start of `p`.
pub open spec fn sync_from(c: CmdSync, p: Seq<u8>) -> bool {
    c.buffer_count == le_u64(p, 0) && c.timestamp_ns == le_u64(p, 8)
}

/// `c` holds the `CmdRssi` record at the start of `p`.
pub open spec fn rssi_from(c: CmdRssi, p: Seq<u8>) -> bool {
    c.data_rssi == le_i16(p, 0) && c.ctrl_rssi == le_i16(p, 2) && c.error_pkt_num == le_u32(
        p,
        4,
    )
}

/// `r` is what `decode_msg_cmd` gives on a command `s` (command header and record):
/// the record of a known command whose length is exactly that record's length.
pub open spec fn decode_msg_cmd_gives(s: Seq<u8>, r: Result<MsgCmdType, InfluxErrorCode>) -> bool {
    let id = le_u16(s, 0);
    let p = s.skip(2);
    if id == 1 {
        if p.len() != CMD_READY_LEN {
            r == Err::<MsgCmdType, InfluxErrorCode>(InfluxErrorCode::CmdIncorrectLength)
        } else {
            r matches Ok(MsgCmdType::Ready(c)) && ready_from(c, p)
        }
    } else if id == 4 {
        if p.len() != CMD_RSSI_LEN {
            r == Err::<MsgCmdType, InfluxErrorCode>(InfluxErrorCode::CmdIncorrectLength)
        } else {
            r matches Ok(MsgCmdType::Rssi(c)) && rssi_from(c, p)
        }
    } else if id == 3 {
        if p.len() != CMD_SYNC_LEN {
            r == Err::<MsgCmdType, InfluxErrorCode>(InfluxErrorCode::CmdIncorrectLength)
        } else {
            r matches Ok(MsgCmdType::SyncChrono(c)) && sync_from(c, p)
        }
    } else {
        r == Err::<MsgCmdType, InfluxErrorCode>(InfluxErrorCode::CmdTypeNotImplemented)
    }
}

/// The data header in the first 24 bytes of `s`.
pub open spec fn data_header_of(s: Seq<u8>) -> MsgDataHeader {
    MsgDataHeader {
        data_id: le_u32(s, 0),
        buffer_size: le_u16(s, 4),
        n_buffers: le_u16(s, 6),
        timestamp: TimeStampCount { timestamp: le_u64(s, 8), count: le_u64(s, 16) },
    }
}

/// `len` bytes split into buffers of `size` bytes leave no remainder (a zero size never does).
pub open spec fn splits_evenly(len: int, size: int) -> bool {
    size != 0 && len % size == 0
}

/// The number of whole buffers counted in a `u32` that saturates.
pub open spec fn buffer_count_u32(len: int, size: int) -> int {
    if len / size > u32::MAX {
        u32::MAX as int
    } else {
        len / size
    }
}

/// The number of whole buffers counted in a `u16` that saturates.
pub open spec fn buffer_count_u16(len: int, size: int) -> int {
    if len / size > u16::MAX {
        u16::MAX as int
    } else {
        len / size
    }
}

/// Outcome of `decode_msg_data` on a data packet `s` (data header and buffers).
pub open spec fn spec_decode_msg_data(s: Seq<u8>) -> Result<MsgDataHeader, InfluxErrorCode> {
    let h = data_header_of(s);
    let rest = s.len() - MSG_DATA_HEADER_LEN;
    if !splits_evenly(rest, h.buffer_size as int) {
        Err(InfluxErrorCode::NumBuffersFrac)
    } else if buffer_count_u32(rest, h.buffer_size as int) != h.n_buffers {
        Err(InfluxErrorCode::IncorrectNumBuffers)
    } else {
        Ok(h)
    }
}

// ----- decoding -----

/// Splits the message header off `data` and checks that the length it declares
/// is the length of the whole message (taken modulo 2^16).
pub fn decode_msg(data: &mut Bytes) -> (r: Result<MsgHeader, InfluxErrorCode>)
    requires
        bytes_view(*old(data)).len() >= MSG_HEADER_LEN,
    ensures
        bytes_view(*final(data)) == bytes_view(*old(data)).skip(MSG_HEADER_LEN as int),
        r == spec_decode_msg(bytes_view(*old(data))),
{
    let ghost s = bytes_view(*data);
    let total_len = (bytes_len(data) % 65536) as u16;
    let bytes_header = bytes_split_to(data, MSG_HEADER_LEN);
    match read_u8_u8_u16(bytes_as_slice(&bytes_header)) {
        Ok((device_id, msg_type, len)) => {
            let header = MsgHeader { device_id, msg_type, len };
            assert(header == header_of(s));
            if header.len != total_len {
                Err(InfluxErrorCode::HeaderLengthIncorrect)
            } else {
                Ok(header)
            }
        },
        Err(_) => Err(InfluxErrorCode::DecodeHeaderError),
    }
}

/// `Ok(0)` when `data` holds exactly `expected_len` bytes.
fn check_cmd_type(data: &Bytes, expected_len: usize) -> (r: Result<u8, InfluxErrorCode>)
    ensures
        r == (if bytes_view(*data).len() != expected_len {
            Err::<u8, InfluxErrorCode>(InfluxErrorCode::CmdIncorrectLength)
        } else {
            Ok::<u8, InfluxErrorCode>(0)
        }),
{
    if bytes_len(data) != expected_len {
        Err(InfluxErrorCode::CmdIncorrectLength)
    } else {
        Ok(0)
    }
}

/// Splits the command header off `data` and decodes the command record that the
/// rest of `data` must be.
pub fn decode_msg_cmd(data: &mut Bytes) -> (r: Result<MsgCmdType, InfluxErrorCode>)
    requires
        bytes_view(*old(data)).len() >= MSG_CMD_HEADER_LEN,
    ensures
        bytes_view(*final(data)) == bytes_view(*old(data)).skip(MSG_CMD_HEADER_LEN as int),
        decode_msg_cmd_gives(bytes_view(*old(data)), r),
{
    let ghost s = bytes_view(*data);
    let header = bytes_split_to(data, MSG_CMD_HEADER_LEN);
    let ghost p = bytes_view(*data);
    assert(p == s.skip(2));
    match read_u16(bytes_as_slice(&header)) {
        Ok(id) => {
            let cmd_header = MsgCmdHeader { id };
            assert(cmd_header.id == le_u16(s, 0));
            if cmd_header.id == CmdId::DeviceReady.code() {
                check_cmd_type(data, CMD_READY_LEN)?;
                match read_mac_u64(bytes_as_slice(data)) {
                    Ok((mac, sample_frequency)) => Ok(
                        MsgCmdType::Ready(CmdReady { mac, sample_frequency }),
                    ),
                    Err(_) => Err(InfluxErrorCode::CmdTypeDoesntMatch),
                }
            } else if cmd_header.id == CmdId::Rssi.code() {
                check_cmd_type(data, CMD_RSSI_LEN)?;
                match read_i16_i16_u32(bytes_as_slice(data)) {
                    Ok((data_rssi, ctrl_rssi, error_pkt_num)) => Ok(
                        MsgCmdType::Rssi(CmdRssi { data_rssi, ctrl_rssi, error_pkt_num }),
                    ),
                    Err(_) => Err(InfluxErrorCode::CmdTypeDoesntMatch),
                }
            } else if cmd_header.id == CmdId::DeviceSync.code() {
                check_cmd_type(data, CMD_SYNC_LEN)?;
                match read_u64_u64(bytes_as_slice(data)) {
                    Ok((buffer_count, timestamp_ns)) => Ok(
                        MsgCmdType::SyncChrono(CmdSync { buffer_count, timestamp_ns }),
                    ),
                    Err(_) => Err(InfluxErrorCode::CmdTypeDoesntMatch),
                }
            } else {
                Err(InfluxErrorCode::CmdTypeNotImplemented)
            }
        },
        Err(_) => Err(InfluxErrorCode::DecodeHeaderCmdError),
    }
}

/// Splits the data header off `data` and checks that the rest is a whole number
/// of buffers of the declared size, as many as declared.
pub fn decode_msg_data(data: &mut Bytes) -> (r: Result<MsgDataHeader, InfluxErrorCode>)
    requires
        bytes_view(*old(data)).len() >= MSG_DATA_HEADER_LEN,
    ensures
        bytes_view(*final(data)) == bytes_view(*old(data)).skip(MSG_DATA_HEADER_LEN as int),
        r == spec_decode_msg_data(bytes_view(*old(data))),
{
    let ghost s = bytes_view(*data);
    let bytes_header_data = bytes_split_to(data, MSG_DATA_HEADER_LEN);
    let data_lenght = bytes_len(data);
    match read_u32_u16_u16_u64_u64(bytes_as_slice(&bytes_header_data)) {
        Ok((data_id, buffer_size, n_buffers, (timestamp, count))) => {
            let header = MsgDataHeader {
                data_id,
                buffer_size,
                n_buffers,
                timestamp: TimeStampCount { timestamp, count },
            };
            assert(header == data_header_of(s));
            if header.buffer_size == 0 || data_lenght % (header.buffer_size as usize) != 0 {
                return Err(InfluxErrorCode::NumBuffersFrac);
            }
            let num_buffers = data_lenght / (header.buffer_size as usize);
            let counted: u32 = if num_buffers > u32::MAX as usize {
                u32::MAX
            } else {
                num_buffers as u32
            };
            if counted != header.n_buffers as u32 {
                return Err(InfluxErrorCode::IncorrectNumBuffers);
            }
            Ok(header)
        },
        Err(_) => Err(InfluxErrorCode::DecodeHeaderDataError),
    }
}

/// `v` are the buffers read, in order, from consecutive slices of `size` bytes of `s`.
pub open spec fn buffers_from<T: DataBuffer>(v: Seq<T>, s: Seq<u8>, size: int) -> bool {
    forall|i: int|
        0 <= i < v.len() ==> #[trigger] v[i].built_from(s.subrange(i * size, (i + 1) * size))
}

/// Splitting `size` more bytes off `s.skip(i * size)` gives the `i`-th slice and leaves
/// `s.skip((i + 1) * size)`.
proof fn lemma_next_slice(s: Seq<u8>, i: int, size: int, n: int)
    requires
        0 <= i < n,
        0 < size,
        n * size <= s.len(),
    ensures
        (i + 1) * size == i * size + size,
        i * size + size <= s.len(),
        0 <= i * size,
        s.skip(i * size).take(size) == s.subrange(i * size, (i + 1) * size),
        s.skip(i * size).skip(size) == s.skip((i + 1) * size),
{
    assert((i + 1) * size == i * size + size) by (nonlinear_arith);
    assert((i + 1) * size <= n * size) by (nonlinear_arith)
        requires
            i + 1 <= n,
            0 < size,
    ;
    assert(0 <= i * size) by (nonlinear_arith)
        requires
            0 <= i,
            0 < size,
    ;
    assert(s.skip(i * size).take(size) =~= s.subrange(i * size, (i + 1) * size));
    assert(s.skip(i * size).skip(size) =~= s.skip((i + 1) * size));
}

/// Splits `n` buffers of `size` bytes off `data` and reads each.
fn split_buffers<T: DataBuffer>(data: &mut Bytes, size: usize, n: usize) -> (v: Vec<T>)
    requires
        0 < size,
        n * size <= bytes_view(*old(data)).len(),
        n > 0 ==> size >= T::min_len(),
    ensures
        v.len() == n,
        buffers_from(v@, bytes_view(*old(data)), size as int),
        bytes_view(*final(data)) == bytes_view(*old(data)).skip(n * size),
{
    let ghost s = bytes_view(*data);
    let mut output_vec: Vec<T> = Vec::new();
    let mut i: usize = 0;
    assert(s.skip(0) =~= s);
    while i < n
        invariant
            0 < size,
            i <= n,
            n * size <= s.len(),
            n > 0 ==> size >= T::min_len(),
            output_vec.len() == i,
            buffers_from(output_vec@, s, size as int),
            bytes_view(*data) == s.skip(i * size),
        decreases n - i,
    {
        proof {
            lemma_next_slice(s, i as int, size as int, n as int);
        }
        let current_buffer = bytes_split_to(data, size);
        let buffer = T::from_bytes(current_buffer);
        let ghost prev = output_vec@;
        output_vec.push(buffer);
        i = i + 1;
        assert forall|j: int| 0 <= j < output_vec@.len() implies #[trigger] output_vec@[j].built_from(
            s.subrange(j * size, (j + 1) * size),
        ) by {
            if j < i - 1 {
                assert(output_vec@[j] == prev[j]);
            }
        }
    }
    output_vec
}

/// Splits `data` into buffers of `buffer_size` bytes, if it holds a whole number of them.
pub fn decode_data<T: DataBuffer>(data: &mut Bytes, buffer_size: usize) -> (r: Result<
    Vec<T>,
    InfluxErrorCode,
>)
    requires
        splits_evenly(bytes_view(*old(data)).len() as int, buffer_size as int) && buffer_count_u32(
            bytes_view(*old(data)).len() as int,
            buffer_size as int,
        ) > 0 ==> buffer_size >= T::min_len(),
    ensures
        ({
            let s = bytes_view(*old(data));
            let n = buffer_count_u32(s.len() as int, buffer_size as int);
            if !splits_evenly(s.len() as int, buffer_size as int) {
                &&& r is Err
                &&& r->Err_0 == InfluxErrorCode::NumBuffersFrac
                &&& bytes_view(*final(data)) == s
            } else {
                &&& r is Ok
                &&& r->Ok_0.len() == n
                &&& buffers_from(r->Ok_0@, s, buffer_size as int)
                &&& bytes_view(*final(data)) == s.skip(n * buffer_size)
            }
        }),
{
    let total_len = bytes_len(data);
    if buffer_size == 0 || total_len % buffer_size != 0 {
        return Err(InfluxErrorCode::NumBuffersFrac);
    }
    let num_buffers = total_len / buffer_size;
    let count: usize = if num_buffers > u32::MAX as usize {
        u32::MAX as usize
    } else {
        num_buffers
    };
    assert(count * buffer_size <= total_len) by (nonlinear_arith)
        requires
            count <= num_buffers,
            num_buffers == total_len / buffer_size,
            buffer_size > 0,
    ;
    Ok(split_buffers(data, buffer_size, count))
}

/// The data packet `p` (data header and buffers) is well formed: a whole number of
/// buffers of the declared size, as many as declared.
pub open spec fn data_packet_valid(p: Seq<u8>) -> bool {
    let h = data_header_of(p);
    let rest = p.len() - MSG_DATA_HEADER_LEN;
    splits_evenly(rest, h.buffer_size as int) && buffer_count_u16(rest, h.buffer_size as int)
        == h.n_buffers
}

/// `decode` runs on `s` without panicking: the header is there, a data message that
/// declares its length right holds a data header, and a valid packet with buffers has
/// buffers long enough to read.
pub open spec fn decode_can_run<T: DataBuffer>(s: Seq<u8>) -> bool {
    let h = header_of(s);
    let p = s.skip(MSG_HEADER_LEN as int);
    &&& s.len() >= MSG_HEADER_LEN
    &&& (h.len == s.len() && h.msg_type == 2) ==> {
        &&& p.len() >= MSG_DATA_HEADER_LEN
        &&& (data_packet_valid(p) && data_header_of(p).n_buffers > 0) ==> data_header_of(
            p,
        ).buffer_size >= T::min_len()
    }
}

/// `c` is what `decode` gives for the message `s`: the buffers of a data message whose
/// length and packet are right, and nothing for anything else.
pub open spec fn decode_gives<T: DataBuffer>(s: Seq<u8>, c: MsgContainer<T>) -> bool {
    let h = header_of(s);
    let p = s.skip(MSG_HEADER_LEN as int);
    let dh = data_header_of(p);
    if h.len == s.len() && h.msg_type == 2 && data_packet_valid(p) {
        &&& c is MsgDataContainer
        &&& c->MsgDataContainer_0 == dh.data_id
        &&& c->MsgDataContainer_1.len() == dh.n_buffers
        &&& buffers_from(
            c->MsgDataContainer_1@,
            p.skip(MSG_DATA_HEADER_LEN as int),
            dh.buffer_size as int,
        )
    } else {
        c is MsgEmpty
    }
}

/// Decodes a whole message: its header, and the buffers of a valid data message.
pub fn decode<T: DataBuffer>(data_in: Bytes) -> (r: (MsgHeader, MsgContainer<T>))
    requires
        decode_can_run::<T>(bytes_view(data_in)),
    ensures
        r.0 == header_of(bytes_view(data_in)),
        decode_gives::<T>(bytes_view(data_in), r.1),
{
    let ghost s = bytes_view(data_in);
    let mut data_in = data_in;
    let total_len = bytes_len(&data_in);
    let bytes_header = bytes_split_to(&mut data_in, MSG_HEADER_LEN);
    let header_msg = read_u8_u8_u16(bytes_as_slice(&bytes_header));
    let header = match header_msg {
        Ok((device_id, msg_type, len)) => MsgHeader { device_id, msg_type, len },
        Err(_) => MsgHeader { device_id: 0, msg_type: 0, len: 0 },
    };
    assert(header == header_of(s));
    let ghost p = bytes_view(data_in);
    let mut msg_output = MsgContainer::MsgEmpty;
    if total_len == header.len as usize && header.msg_type == MsgType::MqttData.code() {
        let bytes_header_data = bytes_split_to(&mut data_in, MSG_DATA_HEADER_LEN);
        match read_u32_u16_u16_u64_u64(bytes_as_slice(&bytes_header_data)) {
            Ok((data_id, buffer_size, n_buffers, (timestamp, count))) => {
                let data_header = MsgDataHeader {
                    data_id,
                    buffer_size,
                    n_buffers,
                    timestamp: TimeStampCount { timestamp, count },
                };
                assert(data_header == data_header_of(p));
                let rest = bytes_len(&data_in);
                let size = data_header.buffer_size as usize;
                if size != 0 && rest % size == 0 {
                    let num_buffers = rest / size;
                    let counted: u16 = if num_buffers > u16::MAX as usize {
                        u16::MAX
                    } else {
                        num_buffers as u16
                    };
                    if counted == data_header.n_buffers {
                        let n = data_header.n_buffers as usize;
                        assert(n * size <= rest) by (nonlinear_arith)
                            requires
                                n <= num_buffers,
                                num_buffers == rest / size,
                                size > 0,
                        ;
                        let data: Vec<T> = split_buffers(&mut data_in, size, n);
                        msg_output = MsgContainer::MsgDataContainer(data_header.data_id, data);
                    }
                }
            },
            Err(_) => {},
        }
    }
    (header, msg_output)
}

// ----- encoding -----

/// Header and command header of a server command whose record is `cmd_len` bytes long:
/// the length written is that of the whole message, modulo 2^16.
fn create_resp_header(id: CmdId, cmd_len: usize) -> (output: Vec<u8>)
    requires
        cmd_len <= usize::MAX - (MSG_HEADER_LEN + MSG_CMD_HEADER_LEN),
    ensures
        output@ == seq![SERVER_ID, msg_type_code(MsgType::MqttCmd)] + u16_le_bytes(
            ((MSG_HEADER_LEN + MSG_CMD_HEADER_LEN + cmd_len) % 65536) as u16,
        ) + u16_le_bytes(cmd_code(id)),
{
    let header = MsgHeader {
        device_id: SERVER_ID,
        msg_type: MsgType::MqttCmd.code(),
        len: ((MSG_HEADER_LEN + MSG_CMD_HEADER_LEN + cmd_len) % 65536) as u16,
    };
    let mut output = write_u8_u8_u16(&(header.device_id, header.msg_type, header.len)).unwrap();
    let cmd_header = MsgCmdHeader { id: id.code() };
    let mut cmd_bytes = write_u16(&cmd_header.id).unwrap();
    output.append(&mut cmd_bytes);
    output
}

/// The message that carries the response `c`: a command header of fourteen bytes
/// from the server, command id 2, then the MAC and the local id.
pub open spec fn resp_id_message(c: CmdRespId) -> Seq<u8> {
    seq![SERVER_ID, 1u8, 14u8, 0u8, 2u8, 0u8] + c.mac@ + u16_le_bytes(c.device_id)
}

/// Encodes a command the server sends; only the id response is implemented.
pub fn encode_msg_cmd(cmd: MsgCmdType) -> (r: Result<Bytes, InfluxErrorCode>)
    ensures
        match cmd {
            MsgCmdType::RespId(c) => r is Ok && bytes_view(r->Ok_0) == resp_id_message(c),
            MsgCmdType::SyncChrono(_) => r is Err && r->Err_0
                == InfluxErrorCode::CmdTypeNotImplemented,
            _ => r is Err && r->Err_0 == InfluxErrorCode::RespCmdNotImplemented,
        },
{
    match cmd {
        MsgCmdType::RespId(cmd_resp_id) => {
            let res_data = write_mac_u16(&(cmd_resp_id.mac, cmd_resp_id.device_id));
            match res_data {
                Ok(mut data) => {
                    let mut send_cmd = create_resp_header(CmdId::RespId, CMD_RESP_ID_LEN);
                    send_cmd.append(&mut data);
                    assert(send_cmd@ =~= resp_id_message(cmd_resp_id));
                    Ok(bytes_from_vec(send_cmd))
                },
                Err(_) => Err(InfluxErrorCode::EncodeCmdError),
            }
        },
        MsgCmdType::SyncChrono(_) => Err(InfluxErrorCode::CmdTypeNotImplemented),
        _ => Err(InfluxErrorCode::RespCmdNotImplemented),
    }
}

/// Law: a response the server encodes passes the server's own header check, and
/// its header says it comes from the server, is a command and is fourteen bytes long.
pub proof fn lemma_encoded_response_header(c: CmdRespId)
    ensures
        spec_decode_msg(resp_id_message(c)) == Ok::<MsgHeader, InfluxErrorCode>(
            MsgHeader { device_id: SERVER_ID, msg_type: msg_type_code(MsgType::MqttCmd), len: 14 },
        ),
        le_u16(resp_id_message(c).skip(MSG_HEADER_LEN as int), 0) == 2,
{
    let s = resp_id_message(c);
    assert(s.len() == 14);
    assert(s[2] == 14u8 && s[3] == 0u8);
    assert(s.skip(4)[0] == 2u8 && s.skip(4)[1] == 0u8);
}

// ----- the test message -----

/// Samples in each buffer of the test message, and its number of buffers.
pub const DATA_BUFFER_LEN_TEST: usize = 32;

/// Device that sends the test message.
pub const DEVICE_ID: u8 = 7;

/// `n` test buffers: buffer `k` is `k` as a little-endian `u32`, then `samples`.
pub open spec fn test_buffers(samples: Seq<u8>, n: nat) -> Seq<u8>
    decreases n,
{
    if n == 0 {
        Seq::<u8>::empty()
    } else {
        test_buffers(samples, (n - 1) as nat) + u32_le_bytes((n - 1) as u32) + samples
    }
}

/// The test data message: from device 7, a data message of 1180 bytes; data packet 0
/// of 32 buffers of 36 bytes stamped at time and count zero; then the buffers.
pub open spec fn data_test_bytes(samples: Seq<u8>) -> Seq<u8> {
    test_head_bytes() + test_buffers(samples, 32)
}

/// The message header and data header of the test data message.
pub open spec fn test_head_bytes() -> Seq<u8> {
    seq![DEVICE_ID, msg_type_code(MsgType::MqttData)] + u16_le_bytes(1180) + u32_le_bytes(0)
        + u16_le_bytes(36) + u16_le_bytes(32) + u64_le_bytes(0) + u64_le_bytes(0)
}

/// Reading back the bytes `u32_le_bytes` writes gives the value.
proof fn lemma_u32_round_trip(s: Seq<u8>, i: int, v: u32)
    requires
        0 <= i,
        i + 4 <= s.len(),
        s.subrange(i, i + 4) == u32_le_bytes(v),
    ensures
        le_u32(s, i) == v,
{
    let lo = (v % 65536) as u16;
    let hi = (v / 65536) as u16;
    assert(s[i] == u32_le_bytes(v)[0]);
    assert(s[i + 1] == u32_le_bytes(v)[1]);
    assert(s[i + 2] == u32_le_bytes(v)[2]);
    assert(s[i + 3] == u32_le_bytes(v)[3]);
    assert(le_u16(s, i) == lo);
    assert(le_u16(s, i + 2) == hi);
}

/// Where buffer `k` of the test buffers lies.
proof fn lemma_test_buffers(samples: Seq<u8>, n: nat, k: int)
    requires
        samples.len() == 32,
        0 <= k < n,
    ensures
        test_buffers(samples, n).len() == 36 * n,
        test_buffers(samples, n).subrange(36 * k, 36 * k + 4) == u32_le_bytes(k as u32),
        test_buffers(samples, n).subrange(36 * k + 4, 36 * k + 36) == samples,
    decreases n,
{
    let t = test_buffers(samples, n);
    let prev = test_buffers(samples, (n - 1) as nat);
    if k < n - 1 {
        lemma_test_buffers(samples, (n - 1) as nat, k);
        assert(t.subrange(36 * k, 36 * k + 4) =~= prev.subrange(36 * k, 36 * k + 4));
        assert(t.subrange(36 * k + 4, 36 * k + 36) =~= prev.subrange(36 * k + 4, 36 * k + 36));
    } else {
        if n > 1 {
            lemma_test_buffers(samples, (n - 1) as nat, 0);
        }
        assert(prev.len() == 36 * (n - 1));
        assert(t.subrange(36 * k, 36 * k + 4) =~= u32_le_bytes(k as u32));
        assert(t.subrange(36 * k + 4, 36 * k + 36) =~= samples);
    }
}

/// Buffer `k` of the message `v` (for `k` below 32) starts at byte `28 + 36 * k` with
/// `k` as a little-endian `u32`, followed by `samples`.
pub open spec fn test_buffers_at(v: Seq<u8>, samples: Seq<u8>) -> bool {
    forall|k: int|
        0 <= k < 32 ==> #[trigger] le_u32(v, 28 + 36 * k) == k && v.subrange(32 + 36 * k, 64 + 36 * k)
            == samples
}

/// The test message holds its buffers where `test_buffers_at` says.
proof fn lemma_test_layout(samples: Seq<u8>)
    requires
        samples.len() == 32,
    ensures
        test_buffers_at(data_test_bytes(samples), samples),
{
    let v = data_test_bytes(samples);
    let t = test_buffers(samples, 32);
    let h = test_head_bytes();
    assert(h.len() == 28);
    assert(v == h + t);
    assert forall|k: int| 0 <= k < 32 implies #[trigger] le_u32(v, 28 + 36 * k) == k && v.subrange(
        32 + 36 * k,
        64 + 36 * k,
    ) == samples by {
        lemma_test_buffers(samples, 32, k);
        assert(t.len() == 1152);
        assert(v.subrange(28 + 36 * k, 32 + 36 * k) =~= t.subrange(36 * k, 36 * k + 4));
        assert(v.subrange(32 + 36 * k, 64 + 36 * k) =~= t.subrange(36 * k + 4, 36 * k + 36));
        lemma_u32_round_trip(v, 28 + 36 * k, k as u32);
    }
}

/// The data message of the tests: from device 7, 32 buffers numbered 0 to 31, each
/// holding `samples`.
pub fn data_test_message(samples: [u8; 32]) -> (r: Bytes)
    ensures
        bytes_view(r) == data_test_bytes(samples@),
        bytes_view(r).len() == 1180,
        bytes_view(r)[0] == 7,
        bytes_view(r)[1] == 2,
        le_u16(bytes_view(r), 2) == 1180,
        test_buffers_at(bytes_view(r), samples@),
{
    let len: u16 = (MSG_HEADER_LEN + MSG_DATA_HEADER_LEN + DATA_BUFFER_LEN_TEST * (4
        + DATA_BUFFER_LEN_TEST)) as u16;
    let mut out = write_u8_u8_u16(&(DEVICE_ID, MsgType::MqttData.code(), len)).unwrap();
    let mut field = write_u32(&0).unwrap();
    out.append(&mut field);
    let mut field = write_u16(&((DATA_BUFFER_LEN_TEST + 4) as u16)).unwrap();
    out.append(&mut field);
    let mut field = write_u16(&(DATA_BUFFER_LEN_TEST as u16)).unwrap();
    out.append(&mut field);
    let mut field = write_u64(&0).unwrap();
    out.append(&mut field);
    let mut field = write_u64(&0).unwrap();
    out.append(&mut field);
    let ghost head = out@;
    assert(head =~= test_head_bytes());
    let mut k: u32 = 0;
    while k < DATA_BUFFER_LEN_TEST as u32
        invariant
            k <= 32,
            out@ == head + test_buffers(samples@, k as nat),
        decreases 32 - k,
    {
        let mut id = write_u32(&k).unwrap();
        out.append(&mut id);
        let mut j: usize = 0;
        let ghost before = out@;
        while j < DATA_BUFFER_LEN_TEST
            invariant
                j <= 32,
                out@ == before + samples@.take(j as int),
            decreases 32 - j,
        {
            out.push(samples[j]);
            assert(samples@.take(j + 1) =~= samples@.take(j as int).push(samples@[j as int]));
            j = j + 1;
        }
        assert(samples@.take(32) =~= samples@);
        k = k + 1;
        assert(out@ =~= head + test_buffers(samples@, k as nat));
    }
    let ghost v = out@;
    assert(v =~= data_test_bytes(samples@));
    proof {
        lemma_test_buffers(samples@, 32, 0);
        assert(v[2] == u16_le_bytes(1180)[0] && v[3] == u16_le_bytes(1180)[1]);
        lemma_test_layout(samples@);
    }
    let r = bytes_from_vec(out);
    r
}

} // verus!
