//! The decisions of the MQTT server: how a topic routes a message, what each
//! published message leads to, and what the server subscribes and publishes.
//! The program around it performs the network and database work.
use crate::buf::{bytes_len, bytes_view};
use crate::clock::unix_time_nanos;
use crate::codec::{le_i16, le_u16, le_u32, le_u64};
use crate::comm::config::ConfigFile;
use crate::comm::devices::cc32xx::{
    body_can_run, lemma_built_from, mac_text, registration, spec_db_body, spec_name,
    spec_precision, spec_sync_device, unpack_samples, CC32xxDataBuffer, CC32xxDevice,
    CC32xxDeviceView, CC32xxUniqueIdType, CC32XX_BUFFER_HEADER_LEN,
};
use crate::comm::devices::traits::{DataBuffer, Devices};
use crate::comm::influx_error::InfluxErrorCode;
use crate::comm::influx_info::{error_line, rssi_line, InfoError, InfoRssi};
use crate::comm::influx_state::{counted, counters_fit, packets_lost, DeviceStateView};
use crate::comm::influxdb::{
    bodies_text, buffers_can_run, token_header, write_url, InfluxDbClient, InfluxDbClientView,
    InfluxDbId, InfluxDbPrecision, InfluxRequest,
};
use crate::comm::message::{
    buffer_count_u32, buffers_from, decode_data, encode_msg_cmd, resp_id_message, decode_msg, decode_msg_cmd, decode_msg_data,
    spec_decode_msg, spec_decode_msg_data, splits_evenly, CmdRespId, MsgCmdType, MsgDataHeader,
    MsgHeader, TimeStampCount, MSG_CMD_HEADER_LEN, MSG_DATA_HEADER_LEN, MSG_HEADER_LEN,
};
use crate::text::{dec, decimal_string, digit_char, push_char, push_decimal};
use bytes::Bytes;
use vstd::prelude::*;

verus! {

// ----- topics -----

/// The pieces of `s` between slashes, as `str::split('/')` gives them.
pub open spec fn split_slash(s: Seq<char>) -> Seq<Seq<char>>
    decreases s.len(),
{
    if s.len() == 0 {
        seq![Seq::<char>::empty()]
    } else {
        let init = split_slash(s.drop_last());
        if s.last() == '/' {
            init.push(Seq::<char>::empty())
        } else {
            init.update(init.len() - 1, init.last().push(s.last()))
        }
    }
}

/// There is always at least one piece.
pub proof fn lemma_split_nonempty(s: Seq<char>)
    ensures
        split_slash(s).len() >= 1,
    decreases s.len(),
{
    if s.len() > 0 {
        lemma_split_nonempty(s.drop_last());
    }
}

/// The pieces of `topic` between slashes.
pub fn split_topic(topic: &str) -> (segs: Vec<String>)
    ensures
        segs@.map_values(|x: String| x@) == split_slash(topic@),
{
    let n = topic.unicode_len();
    let mut done: Vec<String> = Vec::new();
    let mut cur = String::new();
    let mut i: usize = 0;
    assert(topic@.take(0) =~= Seq::<char>::empty());
    while i < n
        invariant
            n == topic@.len(),
            i <= n,
            done@.map_values(|x: String| x@).push(cur@) == split_slash(topic@.take(i as int)),
        decreases n - i,
    {
        let c = topic.get_char(i);
        let ghost pre = topic@.take(i as int);
        assert(topic@.take(i + 1).drop_last() =~= pre);
        proof {
            lemma_split_nonempty(pre);
        }
        if c == '/' {
            let ghost old_done = done@;
            done.push(cur);
            cur = String::new();
            assert(done@.map_values(|x: String| x@) =~= old_done.map_values(|x: String| x@).push(
                split_slash(pre).last(),
            ));
            assert(done@.map_values(|x: String| x@).push(cur@) =~= split_slash(topic@.take(i + 1)));
        } else {
            let ghost old_cur = cur@;
            push_char(&mut cur, c);
            assert(done@.map_values(|x: String| x@).push(cur@) =~= split_slash(topic@.take(i + 1)));
        }
        i = i + 1;
    }
    assert(topic@.take(n as int) =~= topic@);
    let ghost old_done = done@;
    done.push(cur);
    assert(done@.map_values(|x: String| x@) =~= old_done.map_values(|x: String| x@).push(cur@));
    done
}

/// `c` is an ASCII decimal digit.
pub open spec fn is_digit(c: char) -> bool {
    '0' <= c && c <= '9'
}

/// The number the digits `d` write, most significant first.
pub open spec fn digits_value(d: Seq<char>) -> int
    decreases d.len(),
{
    if d.len() == 0 {
        0
    } else {
        digits_value(d.drop_last()) * 10 + (d.last() as int - 48)
    }
}

/// The digits of a number text: what follows an optional leading `+`.
pub open spec fn unsigned_digits(s: Seq<char>) -> Seq<char> {
    if s.len() > 0 && s[0] == '+' {
        s.drop_first()
    } else {
        s
    }
}

/// Every character of `d` is a decimal digit.
pub open spec fn all_digits(d: Seq<char>) -> bool {
    forall|i: int| 0 <= i < d.len() ==> is_digit(#[trigger] d[i])
}

/// `str::parse::<u8>`: an optional `+`, then one or more decimal digits of a value
/// up to 255.
pub open spec fn parse_u8_spec(s: Seq<char>) -> Option<u8> {
    let d = unsigned_digits(s);
    if d.len() > 0 && all_digits(d) && digits_value(d) <= 255 {
        Some(digits_value(d) as u8)
    } else {
        None
    }
}

/// Parses a device number written in decimal, as `str::parse::<u8>` does.
pub fn parse_u8(s: &str) -> (r: Option<u8>)
    ensures
        r == parse_u8_spec(s@),
{
    let n = s.unicode_len();
    let mut start: usize = 0;
    if n > 0 && s.get_char(0) == '+' {
        start = 1;
    }
    let ghost d = unsigned_digits(s@);
    assert(d =~= s@.skip(start as int));
    if start == n {
        return None;
    }
    let mut acc: u32 = 0;
    let mut i = start;
    assert(d.take(0) =~= Seq::<char>::empty());
    while i < n
        invariant
            start <= i <= n,
            n == s@.len(),
            d == s@.skip(start as int),
            d == unsigned_digits(s@),
            acc == digits_value(d.take(i - start)),
            acc <= 255,
            forall|j: int| 0 <= j < i - start ==> is_digit(#[trigger] d[j]),
        decreases n - i,
    {
        let c = s.get_char(i);
        assert(d[i - start] == c);
        assert(d.take(i - start + 1).drop_last() =~= d.take(i - start));
        if c < '0' || c > '9' {
            assert(!is_digit(d[i - start]));
            assert(!all_digits(d));
            return None;
        }
        let digit = (c as u32) - 48;
        acc = acc * 10 + digit;
        if acc > 255 {
            proof {
                lemma_digits_prefix_bound(d, i - start + 1);
            }
            assert(!all_digits(d) || digits_value(d) > 255);
            return None;
        }
        i = i + 1;
    }
    assert(d.take(n - start) =~= d);
    Some(acc as u8)
}

/// A value over 255 stays over 255 as more digits follow.
proof fn lemma_digits_prefix_bound(d: Seq<char>, k: int)
    requires
        0 < k <= d.len(),
        forall|i: int| 0 <= i < k ==> is_digit(#[trigger] d[i]),
        digits_value(d.take(k)) > 255,
    ensures
        !all_digits(d) || digits_value(d) > 255,
    decreases d.len() - k,
{
    if k < d.len() && all_digits(d) {
        assert(d.take(k + 1).drop_last() =~= d.take(k));
        assert(is_digit(d[k]));
        lemma_digits_prefix_bound(d, k + 1);
    } else if k == d.len() {
        assert(d.take(k) =~= d);
    }
}

// ----- routing -----

/// The kinds of device the server knows.
#[derive(Debug, PartialEq, Eq, Structural, Copy, Clone)]
pub enum DeviceKind {
    CC32xx,
    Esp32,
}

/// Where a topic sends a message: `DEVICE/cmd`, `DEVICE/data/N`, or nowhere, and why.
#[derive(Debug, PartialEq, Eq, Structural, Copy, Clone)]
pub enum TopicRoute {
    Command(DeviceKind),
    Data(DeviceKind, u8),
    DataInvalidNum,
    DataNoId,
    UnknownOperation,
    NoOperation,
    UnknownDevice,
}

/// The device kind a topic's first piece names.
pub open spec fn device_kind_of(seg: Seq<char>) -> Option<DeviceKind> {
    if seg == "CC32xx"@ {
        Some(DeviceKind::CC32xx)
    } else if seg == "ESP32"@ {
        Some(DeviceKind::Esp32)
    } else {
        None
    }
}

/// The route of a topic split into pieces.
pub open spec fn route_of(segs: Seq<Seq<char>>) -> TopicRoute {
    match device_kind_of(segs[0]) {
        None => TopicRoute::UnknownDevice,
        Some(k) => if segs.len() < 2 {
            TopicRoute::NoOperation
        } else if segs[1] == "cmd"@ {
            TopicRoute::Command(k)
        } else if segs[1] == "data"@ {
            if segs.len() < 3 {
                TopicRoute::DataNoId
            } else {
                match parse_u8_spec(segs[2]) {
                    Some(n) => TopicRoute::Data(k, n),
                    None => TopicRoute::DataInvalidNum,
                }
            }
        } else {
            TopicRoute::UnknownOperation
        },
    }
}

/// Routes a topic.
pub fn route_topic(topic: &str) -> (r: TopicRoute)
    ensures
        r == route_of(split_slash(topic@)),
{
    let segs = split_topic(topic);
    proof {
        lemma_split_nonempty(topic@);
    }
    let ghost v = segs@.map_values(|x: String| x@);
    assert(v[0] == segs@[0]@);
    let cc = String::from_str("CC32xx");
    let esp = String::from_str("ESP32");
    let kind = if segs[0] == cc {
        DeviceKind::CC32xx
    } else if segs[0] == esp {
        DeviceKind::Esp32
    } else {
        return TopicRoute::UnknownDevice;
    };
    if segs.len() < 2 {
        return TopicRoute::NoOperation;
    }
    assert(v[1] == segs@[1]@);
    let cmd = String::from_str("cmd");
    let data = String::from_str("data");
    if segs[1] == cmd {
        TopicRoute::Command(kind)
    } else if segs[1] == data {
        if segs.len() < 3 {
            TopicRoute::DataNoId
        } else {
            assert(v[2] == segs@[2]@);
            match parse_u8(segs[2].as_str()) {
                Some(n) => TopicRoute::Data(kind, n),
                None => TopicRoute::DataInvalidNum,
            }
        }
    } else {
        TopicRoute::UnknownOperation
    }
}

// ----- what a published message leads to -----

/// Inputs on which the server panics.
#[derive(Debug, PartialEq, Eq, Structural, Copy, Clone)]
pub enum PanicReason {
    /// The message is shorter than its header.
    MessageTooShort,
    /// A command message has no room for its command header.
    CommandTooShort,
    /// A data message has no room for its data header.
    DataHeaderTooShort,
    /// Counting the packet would overflow the device's counters.
    PacketCounterOverflow,
    /// The buffers are shorter than a buffer header.
    BufferTooShort,
    /// The data packet holds no buffer.
    NoBuffers,
    /// A buffer ends in bytes that cannot be read as samples, or its last timestamp
    /// overflows.
    SamplesUnwritable,
}

/// What becomes of the buffers of a data packet.
pub enum WriteOutcome {
    /// Nothing is written (the buffers do not split evenly, or the device is not valid).
    Skipped,
    /// The write to post.
    Request(InfluxRequest),
    /// The server panics.
    Panics(PanicReason),
}

/// What a published message leads to.
pub enum PublishAction {
    /// Nothing more to do; the error that stopped the message, if any.
    Skip(Option<InfluxErrorCode>),
    /// A device announced itself: register it once the configuration has been read.
    Register { mac: CC32xxUniqueIdType, rx_id: InfluxDbId },
    /// An information message to post.
    LogInfo(InfluxRequest),
    /// A data packet: the error to post first, if counting the packet failed, then the write.
    Write { error_log: Option<InfluxRequest>, write: WriteOutcome },
    /// The server panics.
    Panics(PanicReason),
}

/// A command the server sends to a device.
pub struct MqttSender {
    pub device_topic: String,
    pub device_id: InfluxDbId,
    pub msg_cmd: MsgCmdType,
}

/// What registering a device leads to.
pub enum RegisterOutcome {
    /// Send the device its id.
    Respond(MqttSender),
    /// Post the error that refused the device.
    LogError(InfluxRequest),
}

/// `req` posts to the nanosecond write URL of the database `db`, with its token.
pub open spec fn is_info_request(req: InfluxRequest, db: InfluxDbClientView) -> bool {
    &&& req.url@ == write_url(db, InfluxDbPrecision::NanoSeconds)
    &&& req.header_key@ == "Authorization"@
    &&& req.header_value@ == token_header(db)
}

/// The `i`-th slice of `size` bytes of `rest`.
pub open spec fn slice_at(rest: Seq<u8>, size: int, i: int) -> Seq<u8> {
    rest.subrange(i * size, (i + 1) * size)
}

/// What writing out the buffer read from the bytes `sl` gives, nothing if it fails.
pub open spec fn slice_body(
    v: CC32xxDeviceView,
    id: u32,
    sl: Seq<u8>,
    server: u128,
    last_sync: TimeStampCount,
) -> Seq<char> {
    match spec_db_body(
        v,
        id,
        le_u64(sl, 0),
        unpack_samples(sl.skip(CC32XX_BUFFER_HEADER_LEN as int)),
        server,
        last_sync,
    ) {
        Ok((text, _)) => text,
        Err(_) => Seq::<char>::empty(),
    }
}

/// The bodies of the first `k` buffers of `size` bytes in `rest`.
pub open spec fn slices_text(
    v: CC32xxDeviceView,
    id: u32,
    rest: Seq<u8>,
    size: int,
    server: u128,
    last_sync: TimeStampCount,
    k: int,
) -> Seq<char>
    decreases k,
{
    if k <= 0 {
        Seq::<char>::empty()
    } else {
        slices_text(v, id, rest, size, server, last_sync, k - 1) + slice_body(
            v,
            id,
            slice_at(rest, size, k - 1),
            server,
            last_sync,
        )
    }
}

/// Each of the first `n` buffers of `size` bytes in `rest` can be written out.
pub open spec fn slices_can_run(
    v: CC32xxDeviceView,
    id: u32,
    rest: Seq<u8>,
    size: int,
    n: int,
    server: u128,
    last_sync: TimeStampCount,
) -> bool {
    forall|i: int|
        0 <= i < n ==> body_can_run(
            v,
            id,
            le_u64(#[trigger] slice_at(rest, size, i), 0),
            unpack_samples(slice_at(rest, size, i).skip(CC32XX_BUFFER_HEADER_LEN as int)).len()
                as int,
            size - CC32XX_BUFFER_HEADER_LEN == 0 || size - CC32XX_BUFFER_HEADER_LEN >= 3,
            (size - CC32XX_BUFFER_HEADER_LEN) % 3 == 0,
            server,
            last_sync,
        )
}

/// What becomes of the buffers `rest` of a data packet with header `dh` for device `id`.
pub open spec fn write_effect(
    v: CC32xxDeviceView,
    db: InfluxDbClientView,
    id: u32,
    rest: Seq<u8>,
    dh: MsgDataHeader,
    w: WriteOutcome,
) -> bool {
    let size = dh.buffer_size as int;
    if !splits_evenly(rest.len() as int, size) {
        w is Skipped
    } else {
        let n = buffer_count_u32(rest.len() as int, size);
        if n > 0 && size < CC32XX_BUFFER_HEADER_LEN {
            w matches WriteOutcome::Panics(PanicReason::BufferTooShort)
        } else {
            match spec_precision(v, id) {
                Err(_) => w is Skipped,
                Ok(p) => if n == 0 {
                    w matches WriteOutcome::Panics(PanicReason::NoBuffers)
                } else if !slices_can_run(v, id, rest, size, n, db.last_db_timestamp, dh.timestamp) {
                    w matches WriteOutcome::Panics(PanicReason::SamplesUnwritable)
                } else {
                    &&& w matches WriteOutcome::Request(req)
                    &&& req.url@ == write_url(db, p)
                    &&& req.header_key@ == "Authorization"@
                    &&& req.header_value@ == token_header(db)
                    &&& req.body@ == slices_text(
                        v,
                        id,
                        rest,
                        size,
                        db.last_db_timestamp,
                        dh.timestamp,
                        n,
                    )
                },
            }
        }
    }
}

/// The registry `new` after counting a packet for `id` in `old`, with result `pr`.
pub open spec fn packet_counted(
    old: CC32xxDeviceView,
    new: CC32xxDeviceView,
    id: u32,
    len: usize,
    count_id: usize,
    pr: Result<usize, InfluxErrorCode>,
) -> bool {
    &&& new.macs == old.macs
    &&& new.contexts == old.contexts
    &&& new.path_config == old.path_config
    &&& pr == (if old.states.contains_key(id) {
        packets_lost(old.states[id].last_msg_count, count_id)
    } else {
        Err(InfluxErrorCode::IdNotValid)
    })
    &&& match pr {
        Ok(lost) => new.states == old.states.insert(id, counted(old.states[id], len, count_id, lost)),
        Err(_) => new.states == old.states,
    }
}

/// What a data packet `d` (data header and buffers) for device `id` leads to.
pub open spec fn data_effect(
    old: CC32xxDeviceView,
    new: CC32xxDeviceView,
    db: InfluxDbClientView,
    id: u32,
    d: Seq<u8>,
    now: u128,
    a: PublishAction,
) -> bool {
    if d.len() < MSG_DATA_HEADER_LEN {
        a matches PublishAction::Panics(PanicReason::DataHeaderTooShort) && new == old
    } else {
        match spec_decode_msg_data(d) {
            Err(e) => a == PublishAction::Skip(Some(e)) && new == old,
            Ok(dh) => {
                let len = (dh.n_buffers * dh.buffer_size) as usize;
                let count_id = dh.data_id as usize;
                if old.states.contains_key(id) && !counters_fit(old.states[id], len, count_id) {
                    a matches PublishAction::Panics(PanicReason::PacketCounterOverflow) && new
                        == old
                } else {
                    exists|pr: Result<usize, InfluxErrorCode>|
                        #![trigger packet_counted(old, new, id, len, count_id, pr)]
                        {
                            &&& packet_counted(old, new, id, len, count_id, pr)
                            &&& a matches PublishAction::Write { error_log, write }
                            &&& (pr is Err <==> error_log is Some)
                            &&& error_log matches Some(req) ==> {
                                &&& is_info_request(req, db)
                                &&& req.body@ == error_line(
                                    pr->Err_0,
                                    dec(dh.data_id as nat),
                                    "Server"@,
                                    now,
                                )
                            }
                            &&& write_effect(
                                new,
                                db,
                                id,
                                d.skip(MSG_DATA_HEADER_LEN as int),
                                dh,
                                write,
                            )
                        }
                }
            },
        }
    }
}

/// What a signal strength report `p` from device `rx` leads to: its line is posted
/// under the device's name, if the device is valid.
pub open spec fn rssi_effect(
    old: CC32xxDeviceView,
    new: CC32xxDeviceView,
    db: InfluxDbClientView,
    rx: u32,
    p: Seq<u8>,
    now: u128,
    a: PublishAction,
) -> bool {
    let info = InfoRssi {
        data_rssi: le_i16(p, 0),
        ctrl_rssi: le_i16(p, 2),
        error_pkt_num: le_u32(p, 4),
    };
    &&& new == old
    &&& match spec_name(old, rx) {
        Err(e) => a == PublishAction::Skip(Some(e)),
        Ok(name) => {
            &&& a matches PublishAction::LogInfo(req)
            &&& is_info_request(req, db)
            &&& req.body@ == rssi_line(info, name, now)
        },
    }
}

/// What a command `c` (command header and record) under the message header `h` leads to.
pub open spec fn command_effect(
    old: CC32xxDeviceView,
    new: CC32xxDeviceView,
    db: InfluxDbClientView,
    h: MsgHeader,
    c: Seq<u8>,
    server: u128,
    now: u128,
    a: PublishAction,
) -> bool {
    let rx = h.device_id as u32;
    let id = le_u16(c, 0);
    let p = c.skip(MSG_CMD_HEADER_LEN as int);
    if h.msg_type != 1 {
        a == PublishAction::Skip(None) && new == old
    } else if c.len() < MSG_CMD_HEADER_LEN {
        a matches PublishAction::Panics(PanicReason::CommandTooShort) && new == old
    } else if id == 1 {
        if p.len() != 14 {
            a == PublishAction::Skip(Some(InfluxErrorCode::CmdIncorrectLength)) && new == old
        } else {
            &&& a matches PublishAction::Register { mac, rx_id }
            &&& mac.id@ == p.take(6)
            &&& rx_id.id == rx
            &&& new == old
        }
    } else if id == 4 {
        if p.len() != 8 {
            a == PublishAction::Skip(Some(InfluxErrorCode::CmdIncorrectLength)) && new == old
        } else {
            rssi_effect(old, new, db, rx, p, now, a)
        }
    } else if id == 3 {
        if p.len() != 16 {
            a == PublishAction::Skip(Some(InfluxErrorCode::CmdIncorrectLength)) && new == old
        } else {
            let last_sync = TimeStampCount { timestamp: le_u64(p, 8), count: le_u64(p, 0) };
            match spec_sync_device(old, rx) {
                Err(e) => a == PublishAction::Skip(Some(e)) && new == old,
                Ok(_) => {
                    &&& a == PublishAction::Skip(None)
                    &&& new.macs == old.macs
                    &&& new.contexts == old.contexts
                    &&& new.path_config == old.path_config
                    &&& new.states == old.states.insert(
                        rx,
                        DeviceStateView { last_sync, ..old.states[rx] },
                    )
                },
            }
        }
    } else {
        a == PublishAction::Skip(Some(InfluxErrorCode::CmdTypeNotImplemented)) && new == old
    }
}

/// What the message `s` published on `topic` leads to.
pub open spec fn publish_effect(
    old: CC32xxDeviceView,
    new: CC32xxDeviceView,
    db: InfluxDbClientView,
    server: u128,
    topic: Seq<char>,
    s: Seq<u8>,
    now: u128,
    a: PublishAction,
) -> bool {
    if s.len() < MSG_HEADER_LEN {
        a matches PublishAction::Panics(PanicReason::MessageTooShort) && new == old
    } else {
        match spec_decode_msg(s) {
            Err(e) => a == PublishAction::Skip(Some(e)) && new == old,
            Ok(h) => match route_of(split_slash(topic)) {
                TopicRoute::Command(DeviceKind::CC32xx) => command_effect(
                    old,
                    new,
                    db,
                    h,
                    s.skip(MSG_HEADER_LEN as int),
                    server,
                    now,
                    a,
                ),
                TopicRoute::Data(DeviceKind::CC32xx, num) => data_effect(
                    old,
                    new,
                    db,
                    num as u32,
                    s.skip(MSG_HEADER_LEN as int),
                    now,
                    a,
                ),
                _ => a == PublishAction::Skip(None) && new == old,
            },
        }
    }
}

// ----- buffers read from a data packet -----

proof fn lemma_slice_len(rest: Seq<u8>, size: int, i: int, n: int)
    requires
        0 <= i < n,
        size > 0,
        n * size <= rest.len(),
    ensures
        0 <= i * size,
        (i + 1) * size <= rest.len(),
        slice_at(rest, size, i).len() == size,
{
    assert(0 <= i * size) by (nonlinear_arith)
        requires
            0 <= i,
            size > 0,
    ;
    assert((i + 1) * size <= n * size) by (nonlinear_arith)
        requires
            i + 1 <= n,
            size > 0,
    ;
    assert((i + 1) * size == i * size + size) by (nonlinear_arith);
}

/// The `i`-th buffer read from a data packet is what its slice of bytes holds.
proof fn lemma_buffer_is_slice(bufs: Seq<CC32xxDataBuffer>, rest: Seq<u8>, size: int, i: int)
    requires
        buffers_from(bufs, rest, size),
        0 <= i < bufs.len(),
        bufs.len() * size <= rest.len(),
        size >= CC32XX_BUFFER_HEADER_LEN,
    ensures
        bufs[i].buffer_id() == le_u64(slice_at(rest, size, i), 0),
        bufs[i].pending() == unpack_samples(
            slice_at(rest, size, i).skip(CC32XX_BUFFER_HEADER_LEN as int),
        ),
        bufs[i].whole_triples() == ((size - CC32XX_BUFFER_HEADER_LEN) % 3 == 0),
        bufs[i].can_step() == (size - CC32XX_BUFFER_HEADER_LEN == 0 || size
            - CC32XX_BUFFER_HEADER_LEN >= 3),
{
    lemma_slice_len(rest, size, i, bufs.len() as int);
    assert(bufs[i].built_from(slice_at(rest, size, i)));
    lemma_built_from(bufs[i], slice_at(rest, size, i));
}

/// The bodies of the buffers are the bodies of their slices.
proof fn lemma_bodies_slices<'a>(
    d: &CC32xxDevice<'a>,
    id: InfluxDbId,
    bufs: Seq<CC32xxDataBuffer>,
    rest: Seq<u8>,
    size: int,
    server: u128,
    last_sync: TimeStampCount,
    k: int,
)
    requires
        buffers_from(bufs, rest, size),
        0 <= k <= bufs.len(),
        bufs.len() * size <= rest.len(),
        size >= CC32XX_BUFFER_HEADER_LEN,
    ensures
        bodies_text(d, id, bufs, server, last_sync, k) == slices_text(
            d@,
            id.id,
            rest,
            size,
            server,
            last_sync,
            k,
        ),
    decreases k,
{
    if k > 0 {
        lemma_bodies_slices(d, id, bufs, rest, size, server, last_sync, k - 1);
        lemma_buffer_is_slice(bufs, rest, size, k - 1);
    }
}

// ----- the server -----

/// Topic of the message that tells the devices to start sending.
pub const START_TOPIC: &'static str = "CC32xx/cmd/90";

/// Payload of the message that tells the devices to start sending.
pub const START_PAYLOAD: &'static str = "Start Sending Packet";

/// MAC of the device registered when the server starts.
pub open spec fn test_mac() -> Seq<u8> {
    seq![1u8, 2u8, 3u8, 4u8, 5u8, 6u8]
}

/// The device list a configuration that could be read gives.
pub open spec fn config_devices(config: Option<&ConfigFile>) -> Option<Seq<(String, String)>> {
    match config {
        None => None,
        Some(c) => Some(c.devices@),
    }
}

/// What registering `mac` answers: the error to post, or the id to send back.
pub open spec fn register_answer(
    res: Result<InfluxDbId, InfluxErrorCode>,
    mac: Seq<u8>,
    db: InfluxDbClientView,
    now: u128,
    r: RegisterOutcome,
) -> bool {
    match res {
        Err(e) => {
            &&& r matches RegisterOutcome::LogError(req)
            &&& is_info_request(req, db)
            &&& req.body@ == error_line(e, mac_text(mac), mac_text(mac), now)
        },
        Ok(d) => {
            &&& r matches RegisterOutcome::Respond(m)
            &&& m.device_topic@ == "CC32xx"@
            &&& m.device_id.id == 0
            &&& m.msg_cmd matches MsgCmdType::RespId(c)
            &&& c.mac@ == mac
            &&& c.device_id == (d.id % 65536) as u16
        },
    }
}

/// The server's state: the CC32xx registry, the database client and the time the
/// server started.
pub struct MqttServer<'a> {
    device: CC32xxDevice<'a>,
    db_client: InfluxDbClient,
    server_time_ns: u128,
}

impl<'a> MqttServer<'a> {
    pub closed spec fn devices(&self) -> CC32xxDeviceView {
        self.device@
    }

    pub closed spec fn database(&self) -> InfluxDbClientView {
        self.db_client@
    }

    pub closed spec fn server_time(&self) -> u128 {
        self.server_time_ns
    }

    pub closed spec fn wf(&self) -> bool {
        self.device.wf()
    }

    /// A server for the configuration read from `path_config`, started at
    /// `server_time_ns`, with the test device registered; its database client is made
    /// now.
    pub fn new(path_config: String, config: &ConfigFile, server_time_ns: u128) -> (r: Self)
        ensures
            r.wf(),
            r.server_time() == server_time_ns,
            r.database().url == config.url@,
            r.database().port == config.port@,
            r.database().org_id == config.org_id@,
            r.database().bucket == config.bucket@,
            r.database().token == config.token@,
            exists|res: Result<InfluxDbId, InfluxErrorCode>|
                #[trigger] registration(
                    CC32xxDeviceView {
                        macs: Seq::empty(),
                        states: Map::empty(),
                        contexts: Map::empty(),
                        path_config: path_config@,
                    },
                    r.devices(),
                    test_mac(),
                    Some(config.devices@),
                    res,
                ),
    {
        MqttServer::new_at(path_config, config, server_time_ns, unix_time_nanos())
    }

    /// A server for the configuration read from `path_config`, started at
    /// `server_time_ns`, with the test device registered and a database client made at
    /// `db_time_ns`, from which sample timestamps are reckoned.
    pub fn new_at(path_config: String, config: &ConfigFile, server_time_ns: u128, db_time_ns: u128) -> (r:
        Self)
        ensures
            r.wf(),
            r.server_time() == server_time_ns,
            r.database().url == config.url@,
            r.database().port == config.port@,
            r.database().org_id == config.org_id@,
            r.database().bucket == config.bucket@,
            r.database().token == config.token@,
            r.database().last_db_timestamp == db_time_ns,
            exists|res: Result<InfluxDbId, InfluxErrorCode>|
                #[trigger] registration(
                    CC32xxDeviceView {
                        macs: Seq::empty(),
                        states: Map::empty(),
                        contexts: Map::empty(),
                        path_config: path_config@,
                    },
                    r.devices(),
                    test_mac(),
                    Some(config.devices@),
                    res,
                ),
    {
        let mut device = CC32xxDevice::new(path_config);
        let db_client = InfluxDbClient::new_at(
            config.url.clone(),
            config.port.clone(),
            config.org_id.clone(),
            config.bucket.clone(),
            config.token.clone(),
            db_time_ns,
        );
        let mac_test = CC32xxUniqueIdType { id: [1, 2, 3, 4, 5, 6] };
        assert(mac_test.id@ =~= test_mac());
        let ghost empty = device@;
        let res = device.add_unique_id(mac_test, server_time_ns, Some(config));
        assert(empty == CC32xxDeviceView {
            macs: Seq::empty(),
            states: Map::empty(),
            contexts: Map::empty(),
            path_config: empty.path_config,
        });
        assert(registration(empty, device@, test_mac(), Some(config.devices@), res));
        let r = MqttServer { device, db_client, server_time_ns };
        assert(r.devices() == device@);
        r
    }

    /// The path of the configuration file.
    pub fn path_config(&self) -> (r: &String)
        ensures
            r@ == self.devices().path_config,
    {
        self.device.path_config()
    }

    /// What the message `payload` published on `topic` leads to.
    pub fn handle_publish(&mut self, topic: &str, payload: Bytes, now_ns: u128) -> (a: PublishAction)
        requires
            old(self).wf(),
        ensures
            final(self).wf(),
            final(self).database() == old(self).database(),
            final(self).server_time() == old(self).server_time(),
            publish_effect(
                old(self).devices(),
                final(self).devices(),
                old(self).database(),
                old(self).server_time(),
                topic@,
                bytes_view(payload),
                now_ns,
                a,
            ),
    {
        let mut data = payload;
        if bytes_len(&data) < MSG_HEADER_LEN {
            return PublishAction::Panics(PanicReason::MessageTooShort);
        }
        let header = match decode_msg(&mut data) {
            Err(e) => {
                return PublishAction::Skip(Some(e));
            },
            Ok(h) => h,
        };
        match route_topic(topic) {
            TopicRoute::Command(DeviceKind::CC32xx) => self.handle_command(header, data, now_ns),
            TopicRoute::Data(DeviceKind::CC32xx, num) => self.handle_data(
                InfluxDbId { id: num as u32 },
                data,
                now_ns,
            ),
            _ => PublishAction::Skip(None),
        }
    }

    /// A command received from a CC32xx device.
    fn handle_command(&mut self, header: MsgHeader, data: Bytes, now_ns: u128) -> (a: PublishAction)
        requires
            old(self).wf(),
        ensures
            final(self).wf(),
            final(self).database() == old(self).database(),
            final(self).server_time() == old(self).server_time(),
            command_effect(
                old(self).devices(),
                final(self).devices(),
                old(self).database(),
                header,
                bytes_view(data),
                old(self).server_time(),
                now_ns,
                a,
            ),
    {
        let rx_id = InfluxDbId { id: header.device_id as u32 };
        if header.msg_type != 1 {
            return PublishAction::Skip(None);
        }
        let mut data = data;
        if bytes_len(&data) < MSG_CMD_HEADER_LEN {
            return PublishAction::Panics(PanicReason::CommandTooShort);
        }
        let ghost old_data = data;
        let cmd = match decode_msg_cmd(&mut data) {
            Err(e) => {
                return PublishAction::Skip(Some(e));
            },
            Ok(c) => c,
        };
        match cmd {
            MsgCmdType::Ready(cmd_ready) => {
                let a = PublishAction::Register {
                    mac: CC32xxUniqueIdType { id: cmd_ready.mac },
                    rx_id,
                };
                assert(command_effect(
                    old(self).devices(),
                    self.devices(),
                    old(self).database(),
                    header,
                    bytes_view(old_data),
                    old(self).server_time(),
                    now_ns,
                    a,
                ));
                a
            },
            MsgCmdType::Rssi(cmd_rssi) => match self.device.get_name(rx_id) {
                Err(e) => PublishAction::Skip(Some(e)),
                Ok(device_name) => {
                    let info_rssi = InfoRssi::from_cmd(cmd_rssi);
                    let ghost p = bytes_view(old_data).skip(MSG_CMD_HEADER_LEN as int);
                    assert(info_rssi == InfoRssi {
                        data_rssi: le_i16(p, 0),
                        ctrl_rssi: le_i16(p, 2),
                        error_pkt_num: le_u32(p, 4),
                    });
                    let req = self.db_client.log_info_request_at(device_name, rx_id, info_rssi, now_ns);
                    let a = PublishAction::LogInfo(req);
                    assert(command_effect(
                        old(self).devices(),
                        self.devices(),
                        old(self).database(),
                        header,
                        bytes_view(old_data),
                        old(self).server_time(),
                        now_ns,
                        a,
                    ));
                    a
                },
            },
            MsgCmdType::SyncChrono(cmd_sync) => {
                let last_sync = TimeStampCount {
                    count: cmd_sync.buffer_count,
                    timestamp: cmd_sync.timestamp_ns,
                };
                match self.device.sync_device(rx_id, last_sync, self.server_time_ns) {
                    Err(e) => PublishAction::Skip(Some(e)),
                    Ok(()) => PublishAction::Skip(None),
                }
            },
            MsgCmdType::RespId(_) => PublishAction::Skip(None),
        }
    }

    /// A data packet received from the CC32xx device `id`.
    fn handle_data(&mut self, id: InfluxDbId, data: Bytes, now_ns: u128) -> (a: PublishAction)
        requires
            old(self).wf(),
        ensures
            final(self).wf(),
            final(self).database() == old(self).database(),
            final(self).server_time() == old(self).server_time(),
            data_effect(
                old(self).devices(),
                final(self).devices(),
                old(self).database(),
                id.id,
                bytes_view(data),
                now_ns,
                a,
            ),
    {
        let mut data = data;
        if bytes_len(&data) < MSG_DATA_HEADER_LEN {
            return PublishAction::Panics(PanicReason::DataHeaderTooShort);
        }
        let header = match decode_msg_data(&mut data) {
            Err(e) => {
                return PublishAction::Skip(Some(e));
            },
            Ok(h) => h,
        };
        assert(header.n_buffers * header.buffer_size <= 0xffff * 0xffff) by (nonlinear_arith)
            requires
                header.n_buffers <= 0xffff,
                header.buffer_size <= 0xffff,
        ;
        let data_len = header.n_buffers as usize * header.buffer_size as usize;
        let count_id = header.data_id as usize;
        if !self.device.can_count_packet(id, data_len, count_id) {
            return PublishAction::Panics(PanicReason::PacketCounterOverflow);
        }
        let ghost before = self.device@;
        let res = self.device.add_data_packet(id, data_len, count_id);
        assert(packet_counted(before, self.device@, id.id, data_len, count_id, res));
        let error_log = match res {
            Err(error) => {
                let info_error = InfoError { error, error_info: decimal_string(header.data_id as u128) };
                let name = String::from_str("Server");
                let req = self.db_client.log_info_request_at(name, id, info_error, now_ns);
                Some(req)
            },
            Ok(_) => None,
        };
        let write = self.write_outcome(id, data, header);
        PublishAction::Write { error_log, write }
    }

    /// What becomes of the buffers `data` of a data packet with header `header`.
    fn write_outcome(&self, id: InfluxDbId, data: Bytes, header: MsgDataHeader) -> (w: WriteOutcome)
        requires
            self.wf(),
        ensures
            write_effect(self.devices(), self.database(), id.id, bytes_view(data), header, w),
    {
        let ghost rest = bytes_view(data);
        let size = header.buffer_size as usize;
        let total = bytes_len(&data);
        if size == 0 || total % size != 0 {
            return WriteOutcome::Skipped;
        }
        let q = total / size;
        let n: usize = if q > u32::MAX as usize {
            u32::MAX as usize
        } else {
            q
        };
        if n > 0 && size < CC32XX_BUFFER_HEADER_LEN {
            return WriteOutcome::Panics(PanicReason::BufferTooShort);
        }
        let mut packet = data;
        let buffers: Vec<CC32xxDataBuffer> = match decode_data(&mut packet, size) {
            Ok(b) => b,
            Err(_) => {
                return WriteOutcome::Skipped;
            },
        };
        let ghost bufs = buffers@;
        assert(n * size <= total) by (nonlinear_arith)
            requires
                n <= q,
                q == total / size,
                size > 0,
        ;
        match self.device.get_precision(id) {
            Err(_) => {
                return WriteOutcome::Skipped;
            },
            Ok(_) => {},
        }
        if buffers.len() == 0 {
            return WriteOutcome::Panics(PanicReason::NoBuffers);
        }
        let server = self.db_client.last_db_timestamp();
        let mut i: usize = 0;
        while i < buffers.len()
            invariant
                rest == bytes_view(data),
                size as int == header.buffer_size,
                splits_evenly(rest.len() as int, size as int),
                n == buffer_count_u32(rest.len() as int, size as int),
                spec_precision(self.devices(), id.id) is Ok,
                bufs == buffers@,
                bufs.len() == n,
                n > 0,
                size >= CC32XX_BUFFER_HEADER_LEN,
                n * size <= rest.len(),
                buffers_from(bufs, rest, size as int),
                self.wf(),
                i <= bufs.len(),
                server == self.database().last_db_timestamp,
                forall|j: int|
                    0 <= j < i ==> (#[trigger] bufs[j]).can_write_body(
                        self.device.precision_for(id),
                        self.device.period_for(id),
                        self.device.header_for(id),
                        server,
                        header.timestamp,
                    ),
            decreases bufs.len() - i,
        {
            proof {
                lemma_buffer_is_slice(bufs, rest, size as int, i as int);
            }
            if !buffers[i].can_write_out(id, &self.device, server, header.timestamp) {
                assert(!slices_can_run(
                    self.devices(),
                    id.id,
                    rest,
                    size as int,
                    n as int,
                    server,
                    header.timestamp,
                )) by {
                    assert(slice_at(rest, size as int, i as int) == slice_at(
                        rest,
                        size as int,
                        i as int,
                    ));
                }
                return WriteOutcome::Panics(PanicReason::SamplesUnwritable);
            }
            i = i + 1;
        }
        assert(slices_can_run(
            self.devices(),
            id.id,
            rest,
            size as int,
            n as int,
            server,
            header.timestamp,
        )) by {
            lemma_buffer_is_slice(bufs, rest, size as int, 0);
            assert forall|j: int| 0 <= j < n implies body_can_run(
                self.devices(),
                id.id,
                le_u64(#[trigger] slice_at(rest, size as int, j), 0),
                unpack_samples(slice_at(rest, size as int, j).skip(CC32XX_BUFFER_HEADER_LEN as int)).len() as int,
                size - CC32XX_BUFFER_HEADER_LEN == 0 || size - CC32XX_BUFFER_HEADER_LEN >= 3,
                (size - CC32XX_BUFFER_HEADER_LEN) % 3 == 0,
                server,
                header.timestamp,
            ) by {
                lemma_buffer_is_slice(bufs, rest, size as int, j);
            }
        }
        proof {
            lemma_bodies_slices(
                &self.device,
                id,
                bufs,
                rest,
                size as int,
                server,
                header.timestamp,
                n as int,
            );
        }
        match self.db_client.write_data(id, &self.device, header.timestamp, buffers) {
            Ok(req) => WriteOutcome::Request(req),
            Err(_) => WriteOutcome::Skipped,
        }
    }

    /// Registers the device with MAC `mac` that announced itself as `rx_id`, given the
    /// configuration read from `path_config` (`None` when it could not be read).
    pub fn finish_register(
        &mut self,
        mac: CC32xxUniqueIdType,
        rx_id: InfluxDbId,
        config: Option<&ConfigFile>,
        now_ns: u128,
    ) -> (r: RegisterOutcome)
        requires
            old(self).wf(),
        ensures
            final(self).wf(),
            final(self).database() == old(self).database(),
            final(self).server_time() == old(self).server_time(),
            exists|res: Result<InfluxDbId, InfluxErrorCode>|
                #[trigger] registration(
                    old(self).devices(),
                    final(self).devices(),
                    mac.id@,
                    config_devices(config),
                    res,
                ) && register_answer(res, mac.id@, old(self).database(), now_ns, r),
    {
        let ghost before = self.device@;
        let res_id = self.device.add_unique_id(mac, self.server_time_ns, config);
        assert(registration(before, self.device@, mac.id@, config_devices(config), res_id));
        match res_id {
            Err(error) => {
                let info_error = InfoError { error, error_info: mac.get_id_string() };
                let req = self.db_client.log_info_request_at(mac.get_id_string(), rx_id, info_error, now_ns);
                let r = RegisterOutcome::LogError(req);
                assert(register_answer(res_id, mac.id@, old(self).database(), now_ns, r));
                assert(registration(
                    old(self).devices(),
                    self.devices(),
                    mac.id@,
                    config_devices(config),
                    res_id,
                ));
                r
            },
            Ok(id) => {
                let r = RegisterOutcome::Respond(
                    MqttSender {
                        device_id: InfluxDbId { id: 0 },
                        device_topic: CC32xxDevice::get_device_topic(),
                        msg_cmd: MsgCmdType::RespId(
                            CmdRespId { mac: mac.id, device_id: (id.id % 65536) as u16 },
                        ),
                    },
                );
                assert(register_answer(res_id, mac.id@, old(self).database(), now_ns, r));
                assert(registration(
                    old(self).devices(),
                    self.devices(),
                    mac.id@,
                    config_devices(config),
                    res_id,
                ));
                r
            },
        }
    }
}

// ----- what the server subscribes to and publishes -----

/// What answering a command takes: the topic to subscribe to first (the device's
/// own command topic, for an id response), then the topic and payload to publish.
pub struct ResponsePlan {
    pub subscribe: Option<String>,
    pub publish_topic: String,
    pub payload: Result<Bytes, InfluxErrorCode>,
}

/// `DEVICE/data/N`.
pub open spec fn data_topic(device: Seq<char>, n: nat) -> Seq<char> {
    device + "/data/"@ + dec(n)
}

/// The topics the server subscribes to when it starts: the broadcast command topics,
/// then the data topics of devices 1 to 9 of each kind.
pub open spec fn initial_topics() -> Seq<Seq<char>> {
    seq!["CC32xx/cmd/d2s/255"@, "CC32xx/cmd/255"@] + Seq::new(9, |j: int| data_topic("CC32xx"@, (j + 1) as nat))
        + Seq::new(9, |j: int| data_topic("ESP32"@, (j + 1) as nat))
}

/// The topics the server subscribes to when it starts.
pub fn initial_subscriptions() -> (topics: Vec<String>)
    ensures
        topics@.map_values(|t: String| t@) == initial_topics(),
{
    let mut topics: Vec<String> = Vec::new();
    topics.push(String::from_str("CC32xx/cmd/d2s/255"));
    topics.push(String::from_str("CC32xx/cmd/255"));
    let devices = [CC32xxDevice::get_device_topic(), String::from_str("ESP32")];
    let mut d: usize = 0;
    while d < 2
        invariant
            d <= 2,
            devices@[0]@ == "CC32xx"@,
            devices@[1]@ == "ESP32"@,
            topics@.len() == 2 + 9 * d,
            topics@.map_values(|t: String| t@) == initial_topics().take(2 + 9 * d),
        decreases 2 - d,
    {
        let mut x: u32 = 1;
        while x < 10
            invariant
                1 <= x <= 10,
                d < 2,
                devices@[0]@ == "CC32xx"@,
                devices@[1]@ == "ESP32"@,
                topics@.len() == 2 + 9 * d + (x - 1),
                topics@.map_values(|t: String| t@) == initial_topics().take(2 + 9 * d + (x - 1)),
            decreases 10 - x,
        {
            let mut topic = devices[d].clone();
            topic.append("/data/");
            push_decimal(&mut topic, x as u128);
            let ghost before = topics@.map_values(|t: String| t@);
            topics.push(topic);
            assert(topic@ == data_topic(devices@[d as int]@, x as nat));
            assert(initial_topics()[2 + 9 * d + (x - 1)] == data_topic(devices@[d as int]@, x as nat));
            assert(topics@.map_values(|t: String| t@) =~= initial_topics().take(2 + 9 * d + x));
            x = x + 1;
        }
        d = d + 1;
    }
    assert(initial_topics().len() == 20);
    assert(initial_topics().take(20) =~= initial_topics());
    topics
}

/// What answering the command `msg` takes.
pub fn plan_response(msg: MqttSender) -> (r: ResponsePlan)
    ensures
        match msg.msg_cmd {
            MsgCmdType::RespId(c) => r.subscribe is Some && r.subscribe->Some_0@ == msg.device_topic@
                + "/cmd/d2s/"@ + dec(c.device_id as nat),
            _ => r.subscribe is None,
        },
        r.publish_topic@ == "CC32xx/cmd/s2d/"@ + dec(msg.device_id.id as nat),
        match msg.msg_cmd {
            MsgCmdType::RespId(c) => r.payload is Ok && bytes_view(r.payload->Ok_0) == resp_id_message(c),
            MsgCmdType::SyncChrono(_) => r.payload is Err && r.payload->Err_0
                == InfluxErrorCode::CmdTypeNotImplemented,
            _ => r.payload is Err && r.payload->Err_0 == InfluxErrorCode::RespCmdNotImplemented,
        },
{
    let subscribe = match &msg.msg_cmd {
        MsgCmdType::RespId(resp) => {
            let mut topic = msg.device_topic.clone();
            topic.append("/cmd/d2s/");
            push_decimal(&mut topic, resp.device_id as u128);
            Some(topic)
        },
        _ => None,
    };
    let mut publish_topic = String::from_str("CC32xx/cmd/s2d/");
    push_decimal(&mut publish_topic, msg.device_id.id as u128);
    let payload = encode_msg_cmd(msg.msg_cmd);
    ResponsePlan { subscribe, publish_topic, payload }
}

// ----- laws of routing -----

/// No character of `s` is a slash.
pub open spec fn no_slash(s: Seq<char>) -> bool {
    forall|i: int| 0 <= i < s.len() ==> s[i] != '/'
}

/// A text without slashes is one piece.
proof fn lemma_split_no_slash(s: Seq<char>)
    requires
        no_slash(s),
    ensures
        split_slash(s) == seq![s],
    decreases s.len(),
{
    if s.len() > 0 {
        assert(no_slash(s.drop_last()));
        lemma_split_no_slash(s.drop_last());
        assert(s.last() != '/');
        assert(s.drop_last().push(s.last()) =~= s);
        assert(seq![s.drop_last()].update(0, s.drop_last().push(s.last())) =~= seq![s]);
    } else {
        assert(s =~= Seq::<char>::empty());
    }
}

/// A slash then a text without slashes adds that text as the last piece.
proof fn lemma_split_append(a: Seq<char>, b: Seq<char>)
    requires
        no_slash(b),
    ensures
        split_slash(a + seq!['/'] + b) == split_slash(a).push(b),
    decreases b.len(),
{
    let t = a + seq!['/'] + b;
    if b.len() == 0 {
        assert(t.drop_last() =~= a);
        assert(t.last() == '/');
        assert(b =~= Seq::<char>::empty());
    } else {
        let b0 = b.drop_last();
        assert(no_slash(b0));
        lemma_split_append(a, b0);
        assert(t.drop_last() =~= a + seq!['/'] + b0);
        assert(t.last() == b.last());
        assert(b.last() != '/');
        lemma_split_nonempty(a + seq!['/'] + b0);
        assert(b0.push(b.last()) =~= b);
        assert(split_slash(a).push(b0).update(split_slash(a).len() as int, b0.push(b.last()))
            =~= split_slash(a).push(b));
    }
}

/// The decimal digits of a number are digits, without slash or sign, and read back
/// as the number.
proof fn lemma_dec_digits(n: nat)
    ensures
        dec(n).len() > 0,
        all_digits(dec(n)),
        no_slash(dec(n)),
        dec(n)[0] != '+',
        digits_value(dec(n)) == n,
    decreases n,
{
    let d = (n % 10) as int;
    assert(digit_char(d) as int == 48 + d);
    if n >= 10 {
        lemma_dec_digits(n / 10);
        assert(dec(n).drop_last() =~= dec(n / 10));
        assert(dec(n)[0] == dec(n / 10)[0]);
        assert(dec(n).last() == digit_char(d));
        assert(digits_value(dec(n)) == digits_value(dec(n / 10)) * 10 + d);
        assert(n == (n / 10) * 10 + d);
    } else {
        assert(dec(n).drop_last() =~= Seq::<char>::empty());
        assert(dec(n).last() == digit_char(d));
        assert(digits_value(dec(n)) == digits_value(Seq::<char>::empty()) * 10 + d);
    }
}

/// Law: a message published on `CC32xx/data/N` is routed as data of device `N`, for
/// every device number `N` written in decimal.
pub proof fn lemma_data_topic_routes(n: u8)
    ensures
        route_of(split_slash(data_topic("CC32xx"@, n as nat))) == TopicRoute::Data(
            DeviceKind::CC32xx,
            n,
        ),
{
    reveal_strlit("CC32xx");
    reveal_strlit("/data/");
    reveal_strlit("data");
    lemma_dec_digits(n as nat);
    let cc = "CC32xx"@;
    let d = "data"@;
    let x = dec(n as nat);
    assert(data_topic(cc, n as nat) =~= cc + seq!['/'] + d + seq!['/'] + x);
    assert(no_slash(cc));
    assert(no_slash(d));
    lemma_split_no_slash(cc);
    lemma_split_append(cc, d);
    lemma_split_append(cc + seq!['/'] + d, x);
    assert(split_slash(data_topic(cc, n as nat)) =~= seq![cc, d, x]);
    assert(unsigned_digits(x) == x);
    reveal_strlit("cmd");
    assert(d != "cmd"@) by {
        assert(d[0] == 'd');
        assert("cmd"@[0] == 'c');
    }
    assert(device_kind_of(cc) == Some(DeviceKind::CC32xx));
    assert(parse_u8_spec(x) == Some(n));
}

/// Law: every data topic the server subscribes to when it starts routes to the device
/// number it names.
pub proof fn lemma_subscribed_data_topics_route(j: int)
    requires
        0 <= j < 9,
    ensures
        route_of(split_slash(initial_topics()[2 + j])) == TopicRoute::Data(
            DeviceKind::CC32xx,
            (j + 1) as u8,
        ),
{
    lemma_data_topic_routes((j + 1) as u8);
}


/// Law: the body of the first `k + 1` buffers is the body of the first `k` followed by
/// the lines of buffer `k` alone (none when it cannot be written), whatever the
/// buffers before it gave: a buffer that fails leaves out only itself.
pub proof fn lemma_slices_append(
    v: CC32xxDeviceView,
    id: u32,
    rest: Seq<u8>,
    size: int,
    server: u128,
    last_sync: TimeStampCount,
    k: int,
)
    requires
        0 <= k,
    ensures
        slices_text(v, id, rest, size, server, last_sync, k + 1) == slices_text(
            v,
            id,
            rest,
            size,
            server,
            last_sync,
            k,
        ) + match spec_db_body(
            v,
            id,
            le_u64(slice_at(rest, size, k), 0),
            unpack_samples(slice_at(rest, size, k).skip(CC32XX_BUFFER_HEADER_LEN as int)),
            server,
            last_sync,
        ) {
            Ok((text, _)) => text,
            Err(_) => Seq::<char>::empty(),
        },
        slices_text(v, id, rest, size, server, last_sync, 0) == Seq::<char>::empty(),
{
}

/// Law: a valid data packet published on `CC32xx/data/N` for the registered device `N`,
/// numbered right after the last packet counted for it (or the first one), is counted
/// under the packet number of its header: nothing is lost, no error is posted, the
/// header's number becomes the device's last, and one packet of
/// `n_buffers * buffer_size` bytes is added; no other device changes.
pub proof fn lemma_next_packet_counted(
    old: CC32xxDeviceView,
    new: CC32xxDeviceView,
    db: InfluxDbClientView,
    server: u128,
    topic: Seq<char>,
    s: Seq<u8>,
    now: u128,
    a: PublishAction,
    n: u8,
    dh: MsgDataHeader,
)
    requires
        publish_effect(old, new, db, server, topic, s, now, a),
        route_of(split_slash(topic)) == TopicRoute::Data(DeviceKind::CC32xx, n),
        s.len() >= MSG_HEADER_LEN + MSG_DATA_HEADER_LEN,
        spec_decode_msg(s) is Ok,
        spec_decode_msg_data(s.skip(MSG_HEADER_LEN as int)) == Ok::<MsgDataHeader, InfluxErrorCode>(dh),
        old.states.contains_key(n as u32),
        old.states[n as u32].last_msg_count matches Some(l) ==> l + 1 == dh.data_id,
        old.states[n as u32].total_packet < usize::MAX,
        old.states[n as u32].total_bytes + dh.n_buffers * dh.buffer_size <= usize::MAX,
    ensures
        a matches PublishAction::Write { error_log: None, .. },
        new.macs == old.macs,
        new.contexts == old.contexts,
        new.states.dom() == old.states.dom(),
        new.states[n as u32].last_msg_count == Some(dh.data_id as usize),
        new.states[n as u32].total_packet == old.states[n as u32].total_packet + 1,
        new.states[n as u32].total_bytes == old.states[n as u32].total_bytes + dh.n_buffers
            * dh.buffer_size,
        new.states[n as u32].packet_lost == old.states[n as u32].packet_lost,
        new.states[n as u32].last_sync == old.states[n as u32].last_sync,
        forall|k: u32| k != n as u32 && old.states.contains_key(k) ==> new.states[k] == old.states[k],
{
    let d = s.skip(MSG_HEADER_LEN as int);
    let len = (dh.n_buffers * dh.buffer_size) as usize;
    let count_id = dh.data_id as usize;
    assert(dh.n_buffers * dh.buffer_size <= 0xffff * 0xffff) by (nonlinear_arith)
        requires
            dh.n_buffers <= 0xffff,
            dh.buffer_size <= 0xffff,
    ;
    assert(packets_lost(old.states[n as u32].last_msg_count, count_id) == Ok::<usize, InfluxErrorCode>(0usize));
    assert(counters_fit(old.states[n as u32], len, count_id));
    assert(data_effect(old, new, db, n as u32, d, now, a));
    let pr = choose|pr: Result<usize, InfluxErrorCode>|
        #![trigger packet_counted(old, new, n as u32, len, count_id, pr)]
        {
            &&& packet_counted(old, new, n as u32, len, count_id, pr)
            &&& a matches PublishAction::Write { error_log, write }
            &&& (pr is Err <==> error_log is Some)
        };
    assert(pr == Ok::<usize, InfluxErrorCode>(0usize));
    assert(new.states == old.states.insert(n as u32, counted(old.states[n as u32], len, count_id, 0)));
    assert(new.states.dom() =~= old.states.dom());
}

/// Law: a valid data packet published on `CC32xx/data/N` for the registered device `N`
/// with the same number as the last packet counted for it is a duplicate: nothing is
/// counted, and the error `DataIdDuplicated` is posted with the packet number.
pub proof fn lemma_repeated_packet_refused(
    old: CC32xxDeviceView,
    new: CC32xxDeviceView,
    db: InfluxDbClientView,
    server: u128,
    topic: Seq<char>,
    s: Seq<u8>,
    now: u128,
    a: PublishAction,
    n: u8,
    dh: MsgDataHeader,
)
    requires
        publish_effect(old, new, db, server, topic, s, now, a),
        route_of(split_slash(topic)) == TopicRoute::Data(DeviceKind::CC32xx, n),
        s.len() >= MSG_HEADER_LEN + MSG_DATA_HEADER_LEN,
        spec_decode_msg(s) is Ok,
        spec_decode_msg_data(s.skip(MSG_HEADER_LEN as int)) == Ok::<MsgDataHeader, InfluxErrorCode>(dh),
        old.states.contains_key(n as u32),
        old.states[n as u32].last_msg_count == Some(dh.data_id as usize),
    ensures
        new == old,
        a matches PublishAction::Write { error_log: Some(req), .. } && req.body@ == error_line(
            InfluxErrorCode::DataIdDuplicated,
            dec(dh.data_id as nat),
            "Server"@,
            now,
        ),
{
    let d = s.skip(MSG_HEADER_LEN as int);
    let len = (dh.n_buffers * dh.buffer_size) as usize;
    let count_id = dh.data_id as usize;
    assert(packets_lost(old.states[n as u32].last_msg_count, count_id) == Err::<usize, InfluxErrorCode>(InfluxErrorCode::DataIdDuplicated));
    assert(counters_fit(old.states[n as u32], len, count_id));
    assert(data_effect(old, new, db, n as u32, d, now, a));
    let pr = choose|pr: Result<usize, InfluxErrorCode>|
        #![trigger packet_counted(old, new, n as u32, len, count_id, pr)]
        {
            &&& packet_counted(old, new, n as u32, len, count_id, pr)
            &&& a matches PublishAction::Write { error_log, write }
            &&& (pr is Err <==> error_log is Some)
            &&& error_log matches Some(req) ==> {
                &&& is_info_request(req, db)
                &&& req.body@ == error_line(pr->Err_0, dec(dh.data_id as nat), "Server"@, now)
            }
        };
    assert(pr == Err::<usize, InfluxErrorCode>(InfluxErrorCode::DataIdDuplicated));
    assert(new.states =~= old.states);
}

/// Law: a message whose topic does not start with the `CC32xx` piece (an `ESP32` topic
/// among them) is skipped without an error and leaves the registry as it was.
pub proof fn lemma_other_devices_skipped(
    old: CC32xxDeviceView,
    new: CC32xxDeviceView,
    db: InfluxDbClientView,
    server: u128,
    topic: Seq<char>,
    s: Seq<u8>,
    now: u128,
    a: PublishAction,
)
    requires
        publish_effect(old, new, db, server, topic, s, now, a),
        s.len() >= MSG_HEADER_LEN,
        spec_decode_msg(s) is Ok,
        split_slash(topic)[0] != "CC32xx"@,
    ensures
        a == PublishAction::Skip(None),
        new == old,
{
}

} // verus!
