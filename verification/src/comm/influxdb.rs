//! InfluxDB: device ids, time precisions, the per-device measurement context and
//! the requests written to the database's HTTP write API.
use crate::clock::unix_time_nanos;
use crate::comm::devices::traits::{DataBuffer, Devices};
use crate::comm::influx_error::InfluxErrorCode;
use crate::comm::influx_info::InfluxLogInfo;
use crate::comm::message::TimeStampCount;
use crate::text::{dec, decimal_string, push_char, push_decimal};
use vstd::prelude::*;

verus! {

/// Local id the server gives a device.
#[derive(Debug, PartialEq, Eq, Structural, Copy, Clone, Hash)]
pub struct InfluxDbId {
    pub id: u32,
}

impl InfluxDbId {
    /// The id in decimal.
    pub fn to_string(&self) -> (s: String)
        ensures
            s@ == dec(self.id as nat),
    {
        decimal_string(self.id as u128)
    }
}

/// Precision of the timestamps written to the database.
#[derive(Debug, PartialEq, Eq, Structural, Copy, Clone)]
pub enum InfluxDbPrecision {
    Seconds,
    MiliSeconds,
    MicroSeconds,
    NanoSeconds,
}

/// Units of a precision in one second.
pub open spec fn precision_multiplier(p: InfluxDbPrecision) -> u32 {
    match p {
        InfluxDbPrecision::Seconds => 1,
        InfluxDbPrecision::MiliSeconds => 1000,
        InfluxDbPrecision::MicroSeconds => 1000000,
        InfluxDbPrecision::NanoSeconds => 1000000000,
    }
}

/// Name of a precision in the write API's URL.
pub open spec fn precision_name(p: InfluxDbPrecision) -> Seq<char> {
    match p {
        InfluxDbPrecision::Seconds => seq!['s'],
        InfluxDbPrecision::MiliSeconds => seq!['m', 's'],
        InfluxDbPrecision::MicroSeconds => seq!['u', 's'],
        InfluxDbPrecision::NanoSeconds => seq!['n', 's'],
    }
}

impl InfluxDbPrecision {
    pub fn get_multiplier(&self) -> (m: u32)
        ensures
            m == precision_multiplier(*self),
    {
        match self {
            InfluxDbPrecision::Seconds => 1,
            InfluxDbPrecision::MiliSeconds => 1000,
            InfluxDbPrecision::MicroSeconds => 1000000,
            InfluxDbPrecision::NanoSeconds => 1000000000,
        }
    }

    /// A duration of `duration_ns` nanoseconds counted in whole units of this precision.
    pub fn convert_duration(&self, duration_ns: u128) -> (r: u128)
        ensures
            r == duration_ns * precision_multiplier(*self) as int / 1000000000,
    {
        match self {
            InfluxDbPrecision::Seconds => duration_ns / 1000000000,
            InfluxDbPrecision::MiliSeconds => duration_ns / 1000000,
            InfluxDbPrecision::MicroSeconds => duration_ns / 1000,
            InfluxDbPrecision::NanoSeconds => duration_ns,
        }
    }

    /// Name of the precision in the write API's URL ("s", "ms", "us" or "ns").
    pub fn precision_db_url(&self) -> (s: String)
        ensures
            s@ == precision_name(*self),
    {
        let mut s = String::new();
        match self {
            InfluxDbPrecision::Seconds => {
                push_char(&mut s, 's');
            },
            InfluxDbPrecision::MiliSeconds => {
                push_char(&mut s, 'm');
                push_char(&mut s, 's');
            },
            InfluxDbPrecision::MicroSeconds => {
                push_char(&mut s, 'u');
                push_char(&mut s, 's');
            },
            InfluxDbPrecision::NanoSeconds => {
                push_char(&mut s, 'n');
                push_char(&mut s, 's');
            },
        }
        assert(s@ =~= precision_name(*self));
        s
    }

    /// The same name, as the precision displays itself.
    pub fn to_string(&self) -> (s: String)
        ensures
            s@ == precision_name(*self),
    {
        self.precision_db_url()
    }
}

/// Where and how a device's samples are written: the measurement, the tag that
/// names the device, the field, the sampling period and the time precision.
pub struct InfluxDbContext<'a> {
    name: String,
    type_of_measurement: &'a str,
    category: &'a str,
    measure: &'a str,
    sample_period: u64,
    precision: InfluxDbPrecision,
}

/// The fields of an `InfluxDbContext`.
pub struct InfluxDbContextView {
    pub name: Seq<char>,
    pub type_of_measurement: Seq<char>,
    pub category: Seq<char>,
    pub measure: Seq<char>,
    pub sample_period: u64,
    pub precision: InfluxDbPrecision,
}

impl<'a> View for InfluxDbContext<'a> {
    type V = InfluxDbContextView;

    closed spec fn view(&self) -> InfluxDbContextView {
        InfluxDbContextView {
            name: self.name@,
            type_of_measurement: self.type_of_measurement@,
            category: self.category@,
            measure: self.measure@,
            sample_period: self.sample_period,
            precision: self.precision,
        }
    }
}

/// The start of each line a device writes: `measurement,category=name field`.
pub open spec fn data_header_text(c: InfluxDbContextView) -> Seq<char> {
    c.type_of_measurement + seq![','] + c.category + seq!['='] + c.name + seq![' '] + c.measure
}

impl<'a> InfluxDbContext<'a> {
    pub fn new(
        name: String,
        type_of_measurement: &'a str,
        category: &'a str,
        measure: &'a str,
        sample_period: u64,
        precision: InfluxDbPrecision,
    ) -> (r: InfluxDbContext<'a>)
        ensures
            r@ == (InfluxDbContextView {
                name: name@,
                type_of_measurement: type_of_measurement@,
                category: category@,
                measure: measure@,
                sample_period,
                precision,
            }),
    {
        InfluxDbContext { name, precision, sample_period, type_of_measurement, category, measure }
    }

    /// The start of each line this device writes.
    pub fn gen_data_hedaer(&self) -> (r: Result<String, crate::comm::influx_error::InfluxErrorCode>)
        ensures
            r is Ok,
            r->Ok_0@ == data_header_text(self@),
    {
        let mut s = String::new();
        s.append(self.type_of_measurement);
        push_char(&mut s, ',');
        s.append(self.category);
        push_char(&mut s, '=');
        s.append(self.name.as_str());
        push_char(&mut s, ' ');
        s.append(self.measure);
        assert(s@ =~= data_header_text(self@));
        Ok(s)
    }

    pub fn get_precision_multiplier(&self) -> (m: u32)
        ensures
            m == precision_multiplier(self@.precision),
    {
        self.precision.get_multiplier()
    }

    pub fn get_precision(&self) -> (r: Result<InfluxDbPrecision, crate::comm::influx_error::InfluxErrorCode>)
        ensures
            r is Ok,
            r->Ok_0 == self@.precision,
    {
        Ok(self.precision)
    }

    pub fn get_name(&self) -> (r: Result<String, crate::comm::influx_error::InfluxErrorCode>)
        ensures
            r is Ok,
            r->Ok_0@ == self@.name,
    {
        Ok(self.name.clone())
    }

    pub fn get_sample_period(&self) -> (r: Result<u64, crate::comm::influx_error::InfluxErrorCode>)
        ensures
            r is Ok,
            r->Ok_0 == self@.sample_period,
    {
        Ok(self.sample_period)
    }
}

// ----- the database client -----

/// Where the database is and how to authenticate to it, with the time the client
/// was made, from which sample timestamps are reckoned.
pub struct InfluxDbClient {
    url: String,
    port: String,
    org_id: String,
    bucket: String,
    token: String,
    last_db_timestamp: u128,
}

/// The fields of an `InfluxDbClient`.
pub struct InfluxDbClientView {
    pub url: Seq<char>,
    pub port: Seq<char>,
    pub org_id: Seq<char>,
    pub bucket: Seq<char>,
    pub token: Seq<char>,
    pub last_db_timestamp: u128,
}

impl View for InfluxDbClient {
    type V = InfluxDbClientView;

    closed spec fn view(&self) -> InfluxDbClientView {
        InfluxDbClientView {
            url: self.url@,
            port: self.port@,
            org_id: self.org_id@,
            bucket: self.bucket@,
            token: self.token@,
            last_db_timestamp: self.last_db_timestamp,
        }
    }
}

/// A write to the database: where to post, the one header, and the body.
pub struct InfluxRequest {
    pub url: String,
    pub header_key: String,
    pub header_value: String,
    pub body: String,
}

/// `URL:PORT/api/v2/write?orgID=ORG&bucket=BUCKET&precision=P`.
pub open spec fn write_url(c: InfluxDbClientView, p: InfluxDbPrecision) -> Seq<char> {
    c.url + seq![':'] + c.port + "/api/v2/write?orgID="@ + c.org_id + "&bucket="@ + c.bucket
        + "&precision="@ + precision_name(p)
}

/// The value of the `Authorization` header: `Token TOKEN`.
pub open spec fn token_header(c: InfluxDbClientView) -> Seq<char> {
    "Token "@ + c.token
}

/// The bodies of the first `k` buffers of `bufs` for the device `id` of `device`, those
/// that could not be written left out.
pub open spec fn bodies_text<D: Devices>(
    device: &D,
    id: InfluxDbId,
    bufs: Seq<D::DataBufferType>,
    server: u128,
    last_sync: TimeStampCount,
    k: int,
) -> Seq<char> where D::DataBufferType: DataBuffer
    decreases k,
{
    if k <= 0 {
        Seq::<char>::empty()
    } else {
        bodies_text(device, id, bufs, server, last_sync, k - 1) + match bufs[k - 1].body_for(
            device.precision_for(id),
            device.period_for(id),
            device.header_for(id),
            server,
            last_sync,
        ) {
            Ok((text, _)) => text,
            Err(_) => Seq::<char>::empty(),
        }
    }
}

/// Every buffer of `bufs` can be written out for the device `id` of `device` without
/// panicking.
pub open spec fn buffers_can_run<D: Devices>(
    device: &D,
    id: InfluxDbId,
    bufs: Seq<D::DataBufferType>,
    server: u128,
    last_sync: TimeStampCount,
) -> bool where D::DataBufferType: DataBuffer {
    forall|i: int|
        0 <= i < bufs.len() ==> (#[trigger] bufs[i]).can_write_body(
            device.precision_for(id),
            device.period_for(id),
            device.header_for(id),
            server,
            last_sync,
        )
}

/// The bodies of the first `k` buffers do not depend on the buffers after them.
proof fn lemma_bodies_prefix<D: Devices>(
    device: &D,
    id: InfluxDbId,
    bufs: Seq<D::DataBufferType>,
    more: Seq<D::DataBufferType>,
    server: u128,
    last_sync: TimeStampCount,
    k: int,
) where D::DataBufferType: DataBuffer
    requires
        0 <= k <= bufs.len(),
    ensures
        bodies_text(device, id, bufs + more, server, last_sync, k) == bodies_text(
            device,
            id,
            bufs,
            server,
            last_sync,
            k,
        ),
    decreases k,
{
    if k > 0 {
        lemma_bodies_prefix(device, id, bufs, more, server, last_sync, k - 1);
        assert((bufs + more)[k - 1] == bufs[k - 1]);
    }
}

/// Law: writing one more buffer appends that buffer's own lines (none when it cannot
/// be written) to the body of the buffers before it, whatever those gave: a buffer
/// that fails leaves out only itself.
pub proof fn lemma_bodies_append<D: Devices>(
    device: &D,
    id: InfluxDbId,
    bufs: Seq<D::DataBufferType>,
    b: D::DataBufferType,
    server: u128,
    last_sync: TimeStampCount,
) where D::DataBufferType: DataBuffer
    ensures
        bodies_text(device, id, bufs.push(b), server, last_sync, (bufs.len() + 1) as int) == bodies_text(
            device,
            id,
            bufs,
            server,
            last_sync,
            bufs.len() as int,
        ) + match b.body_for(
            device.precision_for(id),
            device.period_for(id),
            device.header_for(id),
            server,
            last_sync,
        ) {
            Ok((text, _)) => text,
            Err(_) => Seq::<char>::empty(),
        },
        bodies_text(device, id, Seq::<D::DataBufferType>::empty(), server, last_sync, 0)
            == Seq::<char>::empty(),
{
    lemma_bodies_prefix(device, id, bufs, seq![b], server, last_sync, bufs.len() as int);
    assert(bufs.push(b) == bufs + seq![b]);
    assert(bufs.push(b)[bufs.len() as int] == b);
}

impl InfluxDbClient {
    /// A client for the database at `url:port`, made now.
    pub fn new(url: String, port: String, org_id: String, bucket: String, token: String) -> (r:
        InfluxDbClient)
        ensures
            r@.url == url@,
            r@.port == port@,
            r@.org_id == org_id@,
            r@.bucket == bucket@,
            r@.token == token@,
    {
        InfluxDbClient::new_at(url, port, org_id, bucket, token, unix_time_nanos())
    }

    /// A client for the database at `url:port`, made at `now_ns` (nanoseconds since
    /// the epoch), from which sample timestamps are reckoned.
    pub fn new_at(url: String, port: String, org_id: String, bucket: String, token: String, now_ns: u128) -> (r:
        InfluxDbClient)
        ensures
            r@ == (InfluxDbClientView {
                url: url@,
                port: port@,
                org_id: org_id@,
                bucket: bucket@,
                token: token@,
                last_db_timestamp: now_ns,
            }),
    {
        InfluxDbClient { last_db_timestamp: now_ns, url, port, org_id, bucket, token }
    }

    /// Server time the sample timestamps are reckoned from, in nanoseconds.
    pub fn last_db_timestamp(&self) -> (t: u128)
        ensures
            t == self@.last_db_timestamp,
    {
        self.last_db_timestamp
    }

    fn gen_url(&self, precision: InfluxDbPrecision) -> (s: String)
        ensures
            s@ == write_url(self@, precision),
    {
        let mut s = self.url.clone();
        push_char(&mut s, ':');
        s.append(self.port.as_str());
        s.append("/api/v2/write?orgID=");
        s.append(self.org_id.as_str());
        s.append("&bucket=");
        s.append(self.bucket.as_str());
        s.append("&precision=");
        let p = precision.precision_db_url();
        s.append(p.as_str());
        assert(s@ =~= write_url(self@, precision));
        s
    }

    fn gen_header(&self) -> (h: (String, String))
        ensures
            h.0@ == "Authorization"@,
            h.1@ == token_header(self@),
    {
        let key = String::from_str("Authorization");
        let mut value = String::from_str("Token ");
        value.append(self.token.as_str());
        (key, value)
    }

    /// The bodies of all the buffers, in order; a buffer that cannot be written is left out.
    fn gen_body<D: Devices>(
        &self,
        data: Vec<D::DataBufferType>,
        last_sync: TimeStampCount,
        id: InfluxDbId,
        device: &D,
        duration_ns: u128,
    ) -> (r: Result<String, InfluxErrorCode>) where D::DataBufferType: DataBuffer
        requires
            data@.len() > 0,
            device.wf(),
            buffers_can_run(device, id, data@, duration_ns, last_sync),
        ensures
            r is Ok,
            r->Ok_0@ == bodies_text(device, id, data@, duration_ns, last_sync, data@.len() as int),
    {
        let ghost bufs = data@;
        let mut data = data;
        let mut out = String::new();
        let n = data.len();
        let mut i: usize = 0;
        while i < n
            invariant
                n == bufs.len(),
                data@.len() == n,
                i <= n,
                device.wf(),
                buffers_can_run(device, id, bufs, duration_ns, last_sync),
                forall|j: int| i <= j < n ==> #[trigger] data@[j] == bufs[j],
                out@ == bodies_text(device, id, bufs, duration_ns, last_sync, i as int),
            decreases n - i,
        {
            assert(data@[i as int] == bufs[i as int]);
            let value = data[i].db_create_body(id, device, duration_ns, last_sync);
            match value {
                Ok((body, _last_time)) => {
                    out.append(body.as_str());
                },
                Err(_) => {},
            }
            i = i + 1;
            assert(out@ =~= bodies_text(device, id, bufs, duration_ns, last_sync, i as int));
        }
        Ok(out)
    }

    /// The request that writes `influx_info` for the device `device_name` at `since_epoch`
    /// nanoseconds: nanosecond precision, the token header and the info's line.
    pub fn log_info_request_at<T: InfluxLogInfo>(
        &self,
        device_name: String,
        id: InfluxDbId,
        influx_info: T,
        since_epoch: u128,
    ) -> (r: InfluxRequest)
        ensures
            r.url@ == write_url(self@, InfluxDbPrecision::NanoSeconds),
            r.header_key@ == "Authorization"@,
            r.header_value@ == token_header(self@),
            r.body@ == influx_info.body_text(device_name@, since_epoch),
    {
        let (key_header, value_header) = self.gen_header();
        let string_body = influx_info.gen_body(device_name, since_epoch);
        InfluxRequest {
            url: self.gen_url(InfluxDbPrecision::NanoSeconds),
            header_key: key_header,
            header_value: value_header,
            body: string_body,
        }
    }

    /// The request that writes `influx_info` for the device `device_name`, stamped with
    /// the clock's reading now: what `log_info_request_at` gives for some time.
    pub fn log_info<T: InfluxLogInfo>(&self, device_name: String, id: InfluxDbId, influx_info: T) -> (r:
        InfluxRequest)
        ensures
            r.url@ == write_url(self@, InfluxDbPrecision::NanoSeconds),
            r.header_key@ == "Authorization"@,
            r.header_value@ == token_header(self@),
            exists|t: u128| r.body@ == #[trigger] influx_info.body_text(device_name@, t),
    {
        let since_epoch = unix_time_nanos();
        self.log_info_request_at(device_name, id, influx_info, since_epoch)
    }

    /// The request that writes the samples of the buffers `data` of device `id`:
    /// the device's precision in the URL, the token header, and the buffers' lines.
    pub fn write_data<D: Devices>(
        &self,
        id: InfluxDbId,
        device: &D,
        last_sync: TimeStampCount,
        data: Vec<D::DataBufferType>,
    ) -> (r: Result<InfluxRequest, InfluxErrorCode>) where D::DataBufferType: DataBuffer
        requires
            device.wf(),
            device.precision_for(id) is Ok ==> data@.len() > 0,
            device.precision_for(id) is Ok ==> buffers_can_run(
                device,
                id,
                data@,
                self@.last_db_timestamp,
                last_sync,
            ),
        ensures
            match device.precision_for(id) {
                Err(e) => r is Err && r->Err_0 == e,
                Ok(p) => {
                    &&& r is Ok
                    &&& r->Ok_0.url@ == write_url(self@, p)
                    &&& r->Ok_0.header_key@ == "Authorization"@
                    &&& r->Ok_0.header_value@ == token_header(self@)
                    &&& r->Ok_0.body@ == bodies_text(
                        device,
                        id,
                        data@,
                        self@.last_db_timestamp,
                        last_sync,
                        data@.len() as int,
                    )
                },
            },
    {
        let precision = device.get_precision(id)?;
        let (key_header, value_header) = self.gen_header();
        let string_body = self.gen_body(data, last_sync, id, device, self.last_db_timestamp)?;
        Ok(
            InfluxRequest {
                url: self.gen_url(precision),
                header_key: key_header,
                header_value: value_header,
                body: string_body,
            },
        )
    }
}

} // verus!
