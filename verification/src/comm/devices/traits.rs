//! What the server asks of a kind of sensor device and of its data buffers.
use crate::buf::bytes_view;
use crate::comm::config::ConfigFile;
use crate::comm::influx_error::InfluxErrorCode;
use crate::comm::influx_state::DeviceState;
use crate::comm::influxdb::{InfluxDbContext, InfluxDbId, InfluxDbPrecision};
use crate::comm::message::TimeStampCount;
use bytes::Bytes;
use vstd::prelude::*;

verus! {

/// A kind of sensor device: the registry of the devices of that kind, which gives
/// each a local id, counts its packets, keeps its synchronisation and says how its
/// samples are written. Each kind states the exact effect of each method on its own
/// registry; what every kind shares is stated here.
pub trait Devices: Sized {
    type UniqueIdType;
    type DataBufferType;

    /// The registry is consistent.
    spec fn wf(&self) -> bool;

    /// Counting a packet of `len` bytes numbered `count_id` for `id` fits the counters.
    spec fn can_count(&self, id: InfluxDbId, len: usize, count_id: usize) -> bool;

    /// The timestamp of buffer `current_buffer_id` of `id` fits in 128 bits.
    spec fn offset_fits(&self, id: InfluxDbId, current_buffer_id: u128) -> bool;

    /// The time precision the samples of `id` are written with, or why there is none.
    spec fn precision_for(&self, id: InfluxDbId) -> Result<InfluxDbPrecision, InfluxErrorCode>;

    /// The sampling period of `id`, in nanoseconds, or why there is none.
    spec fn period_for(&self, id: InfluxDbId) -> Result<u64, InfluxErrorCode>;

    /// The start of each line `id` writes, or why there is none.
    spec fn header_for(&self, id: InfluxDbId) -> Result<Seq<char>, InfluxErrorCode>;

    /// An empty registry whose device list is read from `path_config`.
    fn new(path_config: String) -> (r: Self)
        ensures
            r.wf(),
    ;

    /// Counts a data packet of `len` bytes numbered `count_id` for the device `id` and
    /// returns how many packets it shows lost.
    fn add_data_packet(&mut self, id: InfluxDbId, len: usize, count_id: usize) -> (r: Result<
        usize,
        InfluxErrorCode,
    >)
        requires
            old(self).wf(),
            old(self).can_count(id, len, count_id),
        ensures
            final(self).wf(),
    ;

    /// The start of each line the device `id` writes.
    fn get_data_header(&self, id: InfluxDbId) -> (r: Result<String, InfluxErrorCode>)
        requires
            self.wf(),
        ensures
            r is Ok <==> self.header_for(id) is Ok,
            r matches Ok(h) ==> self.header_for(id) == Ok::<Seq<char>, InfluxErrorCode>(h@),
            r matches Err(e) ==> self.header_for(id) == Err::<Seq<char>, InfluxErrorCode>(e),
    ;

    /// Whether `id` was given to a registered device.
    fn check_id(&self, id: InfluxDbId) -> (r: Result<bool, InfluxErrorCode>)
        requires
            self.wf(),
    ;

    /// Registers the device `unique_id`, when the configuration `config` read from the
    /// registry's path lists it, and returns its local id.
    fn add_unique_id(
        &mut self,
        unique_id: Self::UniqueIdType,
        server_time_ns: u128,
        config: Option<&ConfigFile>,
    ) -> (r: Result<InfluxDbId, InfluxErrorCode>)
        requires
            old(self).wf(),
        ensures
            final(self).wf(),
    ;

    /// The measurement context of a device named `name`.
    fn create_db_context<'b>(name: String) -> (c: InfluxDbContext<'b>);

    /// The MQTT topic prefix of the devices.
    fn get_device_topic() -> (s: String);

    fn get_maximum_n_devices() -> (n: u32);

    fn get_sample_period(&self, id: InfluxDbId) -> (r: Result<u64, InfluxErrorCode>)
        ensures
            r == self.period_for(id),
    ;

    /// The bookkeeping of a device registering under `id`.
    fn create_device_state(&self, id: InfluxDbId, server_time_ns: u128) -> (r: Result<
        DeviceState,
        InfluxErrorCode,
    >);

    fn get_precision(&self, id: InfluxDbId) -> (r: Result<InfluxDbPrecision, InfluxErrorCode>)
        requires
            self.wf(),
        ensures
            r == self.precision_for(id),
    ;

    fn get_name(&self, id: InfluxDbId) -> (r: Result<String, InfluxErrorCode>)
        requires
            self.wf(),
    ;

    /// Device-clock timestamp of the buffer numbered `current_buffer_id` of `id`.
    fn get_offset(&self, id: InfluxDbId, current_buffer_id: u128) -> (r: Result<
        u128,
        InfluxErrorCode,
    >)
        requires
            self.wf(),
            self.offset_fits(id, current_buffer_id),
    ;

    /// Fewest bytes a data buffer of this kind of device can be read from.
    spec fn buffer_min_len() -> nat;

    /// Reads a data buffer of this kind of device.
    fn data_buffer_from_bytes(bytes: Bytes) -> (r: Self::DataBufferType)
        requires
            bytes_view(bytes).len() >= Self::buffer_min_len(),
    ;

    /// Records the last synchronisation of the device `id`.
    fn sync_device(&mut self, id: InfluxDbId, last_sync: TimeStampCount, server_time_ns: u128) -> (r:
        Result<(), InfluxErrorCode>)
        requires
            old(self).wf(),
        ensures
            final(self).wf(),
    ;
}

/// A buffer of samples decoded from the bytes a device sent.
pub trait DataBuffer: Sized {
    type DataBufferHeaderType: DataBufferHeader;

    /// Fewest bytes a buffer can be read from.
    spec fn min_len() -> nat;

    /// `self` is the buffer read from `bytes`, before any sample has been taken from it.
    spec fn built_from(&self, bytes: Seq<u8>) -> bool;

    /// Id of the buffer, as the device numbered it.
    spec fn buffer_id(&self) -> u64;

    /// Timestamp of the last sample written out, once the buffer has been written out.
    spec fn last_time(&self) -> Option<u128>;

    /// Reads a buffer from the bytes of one buffer of a data packet.
    fn from_bytes(bytes: Bytes) -> (r: Self)
        requires
            bytes_view(bytes).len() >= Self::min_len(),
        ensures
            r.built_from(bytes_view(bytes)),
    ;

    fn get_buffer_id(&self) -> (r: u64)
        ensures
            r == self.buffer_id(),
    ;

    fn get_last_time(&self) -> (r: Option<u128>)
        ensures
            r == self.last_time(),
    ;

    /// What writing out the buffer's samples gives for a device whose precision,
    /// sampling period and line start are `prec`, `period` and `header`: the lines and
    /// the last timestamp, or why not.
    spec fn body_for(
        &self,
        prec: Result<InfluxDbPrecision, InfluxErrorCode>,
        period: Result<u64, InfluxErrorCode>,
        header: Result<Seq<char>, InfluxErrorCode>,
        server_time_ns: u128,
        last_sync: TimeStampCount,
    ) -> Result<(Seq<char>, int), InfluxErrorCode>;

    /// Writing out the buffer's samples runs without panicking, for a device whose
    /// precision, sampling period and line start are `prec`, `period` and `header`.
    spec fn can_write_body(
        &self,
        prec: Result<InfluxDbPrecision, InfluxErrorCode>,
        period: Result<u64, InfluxErrorCode>,
        header: Result<Seq<char>, InfluxErrorCode>,
        server_time_ns: u128,
        last_sync: TimeStampCount,
    ) -> bool;

    /// Writes the buffer's samples as line-protocol lines for the device `id` of
    /// `device`, the server having started at `server_time_ns` and the device having
    /// last synchronised at `last_sync`; gives the lines and the last timestamp.
    fn db_create_body<D: Devices>(
        &mut self,
        id: InfluxDbId,
        device: &D,
        server_time_ns: u128,
        last_sync: TimeStampCount,
    ) -> (r: Result<(String, u128), InfluxErrorCode>)
        requires
            device.wf(),
            old(self).can_write_body(
                device.precision_for(id),
                device.period_for(id),
                device.header_for(id),
                server_time_ns,
                last_sync,
            ),
        ensures
            final(self).buffer_id() == old(self).buffer_id(),
            match old(self).body_for(
                device.precision_for(id),
                device.period_for(id),
                device.header_for(id),
                server_time_ns,
                last_sync,
            ) {
                Ok((text, time)) => {
                    &&& r is Ok
                    &&& r->Ok_0.0@ == text
                    &&& r->Ok_0.1 == time
                    &&& final(self).last_time() == Some(r->Ok_0.1)
                },
                Err(e) => {
                    &&& r is Err
                    &&& r->Err_0 == e
                    &&& final(self).last_time() == old(self).last_time()
                },
            },
    ;
}

/// The header at the start of a data buffer.
pub trait DataBufferHeader {
    spec fn buffer_id(&self) -> u64;

    fn get_buffer_id(&self) -> (r: u64)
        ensures
            r == self.buffer_id(),
    ;
}

/// Something that can record itself for a device in the database.
pub trait WriteDb {
    fn log_db(&self, id: InfluxDbId) -> u64;
}

} // verus!
