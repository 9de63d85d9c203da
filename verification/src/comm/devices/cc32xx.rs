//! The CC32xx magnetic sensor: its data buffers (an 8-byte buffer id, then
//! 12-bit samples packed two to three bytes) and the server's registry of
//! CC32xx devices.
use crate::buf::{
    bytes_as_slice, bytes_clear, bytes_len, bytes_slice_prefix, bytes_split_to, bytes_view,
};
use crate::codec::{le_u64, read_u64};
use crate::comm::config::{configured_name, lemma_configured_name_exact, ConfigFile};
use crate::comm::devices::traits::{DataBuffer, DataBufferHeader, Devices};
use crate::comm::influx_error::InfluxErrorCode;
use crate::comm::influx_state::{counters_fit, counted, packets_lost, DeviceState, DeviceStateView};
use crate::comm::influxdb::{
    data_header_text, precision_multiplier, InfluxDbContext, InfluxDbContextView, InfluxDbId, InfluxDbPrecision,
};
use crate::comm::message::TimeStampCount;
use crate::text::{dec, hex2, hex_char, push_char, push_decimal, push_hex_byte};
use bytes::Bytes;
use std::collections::HashMap;
use vstd::prelude::*;

verus! {

broadcast use vstd::std_specs::hash::group_hash_axioms;

/// Wire length of the header of a CC32xx data buffer.
pub const CC32XX_BUFFER_HEADER_LEN: usize = 8;

/// MQTT topic prefix of CC32xx devices.
pub const CC32XX_TOPIC_STR: &'static str = "CC32xx";

/// Measurement the samples are written to.
pub const CC32XX_TYPE_OF_MEASUREMENT: &'static str = "test_phase_3";

/// Tag that names the device.
pub const CC32XX_CATEFORY: &'static str = "device";

/// Field that holds a sample.
pub const CC32XX_MEASURE: &'static str = "plhp-sensor";

/// Time between two samples, in nanoseconds.
pub const CC32XX_SAMPLE_RATE: u64 = 128000;

/// Precision of the timestamps written for CC32xx devices.
pub open spec fn cc32xx_time_precision() -> InfluxDbPrecision {
    InfluxDbPrecision::MicroSeconds
}

// ----- unique ids -----

/// A device's MAC address.
#[derive(Debug, Copy, Clone)]
pub struct CC32xxUniqueIdType {
    pub id: [u8; 6],
}

/// `XX:XX:XX:XX:XX:XX`, the bytes of a MAC in upper-case hexadecimal.
pub open spec fn mac_text(m: Seq<u8>) -> Seq<char> {
    hex2(m[0]) + seq![':'] + hex2(m[1]) + seq![':'] + hex2(m[2]) + seq![':'] + hex2(m[3])
        + seq![':'] + hex2(m[4]) + seq![':'] + hex2(m[5])
}

impl CC32xxUniqueIdType {
    /// The MAC as `XX:XX:XX:XX:XX:XX`.
    pub fn get_id_string(&self) -> (s: String)
        ensures
            s@ == mac_text(self.id@),
    {
        let mut s = String::new();
        push_hex_byte(&mut s, self.id[0]);
        push_char(&mut s, ':');
        push_hex_byte(&mut s, self.id[1]);
        push_char(&mut s, ':');
        push_hex_byte(&mut s, self.id[2]);
        push_char(&mut s, ':');
        push_hex_byte(&mut s, self.id[3]);
        push_char(&mut s, ':');
        push_hex_byte(&mut s, self.id[4]);
        push_char(&mut s, ':');
        push_hex_byte(&mut s, self.id[5]);
        assert(s@ =~= mac_text(self.id@));
        s
    }

    /// The MAC as it displays, the same text.
    pub fn to_string(&self) -> (s: String)
        ensures
            s@ == mac_text(self.id@),
    {
        self.get_id_string()
    }

    /// The two MACs are equal.
    fn same(&self, other: &CC32xxUniqueIdType) -> (r: bool)
        ensures
            r == (self.id@ == other.id@),
    {
        let r = self.id[0] == other.id[0] && self.id[1] == other.id[1] && self.id[2] == other.id[2]
            && self.id[3] == other.id[3] && self.id[4] == other.id[4] && self.id[5]
            == other.id[5];
        if !r {
            assert(self.id@ != other.id@) by {
                if self.id@ == other.id@ {
                    assert(self.id@[0] == other.id@[0]);
                    assert(self.id@[1] == other.id@[1]);
                    assert(self.id@[2] == other.id@[2]);
                    assert(self.id@[3] == other.id@[3]);
                    assert(self.id@[4] == other.id@[4]);
                    assert(self.id@[5] == other.id@[5]);
                }
            }
        } else {
            assert(self.id@ =~= other.id@);
        }
        r
    }
}

// ----- the device registry -----

/// The server's CC32xx devices: the MACs that registered, in order, each with the
/// local id it was given, and per id the measurement context and the bookkeeping.
pub struct CC32xxDevice<'a> {
    id_device_state: HashMap<u32, DeviceState>,
    id_db_context: HashMap<u32, InfluxDbContext<'a>>,
    mac_id: Vec<(CC32xxUniqueIdType, InfluxDbId)>,
    path_config: String,
}

/// The registry as the contracts see it: the MACs in the order they registered
/// (the `i`-th got local id `i + 1`), and per id the context and the bookkeeping.
pub struct CC32xxDeviceView {
    pub macs: Seq<Seq<u8>>,
    pub states: Map<u32, DeviceStateView>,
    pub contexts: Map<u32, InfluxDbContextView>,
    pub path_config: Seq<char>,
}

impl<'a> View for CC32xxDevice<'a> {
    type V = CC32xxDeviceView;

    closed spec fn view(&self) -> CC32xxDeviceView {
        CC32xxDeviceView {
            macs: self.mac_id@.map_values(|e: (CC32xxUniqueIdType, InfluxDbId)| e.0.id@),
            states: self.id_device_state@.map_values(|d: DeviceState| d@),
            contexts: self.id_db_context@.map_values(|c: InfluxDbContext<'a>| c@),
            path_config: self.path_config@,
        }
    }
}

/// Local id of the device registered `i`-th (from zero): `i + 1`, wrapping around
/// after `u32::MAX`.
pub open spec fn id_at(i: int) -> u32 {
    (i + 1) as u32
}

/// The id `id` was given to one of the first `n` devices registered.
pub open spec fn is_given(n: int, id: u32) -> bool {
    exists|i: int| 0 <= i < n && #[trigger] id_at(i) == id
}

/// How many of the first `n` devices registered were given the id `id` (ids wrap
/// around after `u32::MAX`).
pub open spec fn ids_count(n: int, id: u32) -> int
    decreases n,
{
    if n <= 0 {
        0
    } else {
        ids_count(n - 1, id) + if id_at(n - 1) == id {
            1int
        } else {
            0int
        }
    }
}

/// `check_id`: an id is valid when exactly one registered MAC was given it; none
/// given it reads as `IdDuplicated`, several as `IdNotValid`.
pub open spec fn spec_check_id(v: CC32xxDeviceView, id: u32) -> Result<bool, InfluxErrorCode> {
    let c = ids_count(v.macs.len() as int, id);
    if c == 0 {
        Err(InfluxErrorCode::IdDuplicated)
    } else if c == 1 {
        Ok(true)
    } else {
        Err(InfluxErrorCode::IdNotValid)
    }
}

/// While fewer than `u32::MAX` devices registered, the ids given are `1` to `n`, once each.
pub proof fn lemma_ids_count_small(n: int, id: u32)
    requires
        0 <= n <= u32::MAX,
    ensures
        ids_count(n, id) == (if 1 <= id <= n {
            1int
        } else {
            0int
        }),
    decreases n,
{
    if n > 0 {
        lemma_ids_count_small(n - 1, id);
        assert(id_at(n - 1) == n);
    }
}

/// `get_sample_period`: the sampling period of the id's context.
pub open spec fn spec_sample_period(v: CC32xxDeviceView, id: u32) -> Result<u64, InfluxErrorCode> {
    if v.contexts.contains_key(id) {
        Ok(v.contexts[id].sample_period)
    } else {
        Err(InfluxErrorCode::IdNotValid)
    }
}

/// `get_precision`: the precision of a valid id's context.
pub open spec fn spec_precision(v: CC32xxDeviceView, id: u32) -> Result<InfluxDbPrecision, InfluxErrorCode> {
    match spec_check_id(v, id) {
        Err(e) => Err(e),
        Ok(_) => if v.contexts.contains_key(id) {
            Ok(v.contexts[id].precision)
        } else {
            Err(InfluxErrorCode::IdNotValid)
        },
    }
}

/// `get_name`: the device name of a valid id's context.
pub open spec fn spec_name(v: CC32xxDeviceView, id: u32) -> Result<Seq<char>, InfluxErrorCode> {
    match spec_check_id(v, id) {
        Err(e) => Err(e),
        Ok(_) => if v.contexts.contains_key(id) {
            Ok(v.contexts[id].name)
        } else {
            Err(InfluxErrorCode::IdNotValid)
        },
    }
}

/// `get_data_header`: the start of each line a valid id writes.
pub open spec fn spec_data_header(v: CC32xxDeviceView, id: u32) -> Result<Seq<char>, InfluxErrorCode> {
    match spec_check_id(v, id) {
        Err(e) => Err(e),
        Ok(_) => if v.contexts.contains_key(id) {
            Ok(data_header_text(v.contexts[id]))
        } else {
            Err(InfluxErrorCode::IdDbContext)
        },
    }
}

/// The context every CC32xx device gets, under the name `name`.
pub open spec fn cc32xx_context(name: Seq<char>) -> InfluxDbContextView {
    InfluxDbContextView {
        name,
        type_of_measurement: CC32XX_TYPE_OF_MEASUREMENT@,
        category: CC32XX_CATEFORY@,
        measure: CC32XX_MEASURE@,
        sample_period: CC32XX_SAMPLE_RATE,
        precision: cc32xx_time_precision(),
    }
}

/// The bookkeeping of a device that registered just now: nothing counted yet and
/// synchronised with a count of zero.
pub open spec fn fresh_state(d: DeviceStateView) -> bool {
    &&& d.total_bytes == 0
    &&& d.total_packet == 0
    &&& d.last_msg_count is None
    &&& d.packet_lost == 0
    &&& d.last_sync.count == 0
    &&& d.count_offset == 0
}

/// `add_unique_id` took the registry from `old` to `new` and answered `r`, for the MAC
/// `mac` and the device list `devices` (`None`: the configuration could not be read).
pub open spec fn registration(
    old: CC32xxDeviceView,
    new: CC32xxDeviceView,
    mac: Seq<u8>,
    devices: Option<Seq<(String, String)>>,
    r: Result<InfluxDbId, InfluxErrorCode>,
) -> bool {
    match devices {
        None => r == Err::<InfluxDbId, InfluxErrorCode>(InfluxErrorCode::NotValidConfigFile) && new
            == old,
        Some(d) => match configured_name(d, mac_text(mac)) {
            None => r == Err::<InfluxDbId, InfluxErrorCode>(
                InfluxErrorCode::UniqueIdNotRegistered,
            ) && new == old,
            Some(name) => {
                &&& r is Ok
                &&& old.macs.contains(mac) ==> {
                    &&& new.macs == old.macs
                    &&& exists|i: int|
                        0 <= i < old.macs.len() && #[trigger] old.macs[i] == mac && r->Ok_0.id
                            == id_at(i)
                }
                &&& !old.macs.contains(mac) ==> {
                    &&& new.macs == old.macs.push(mac)
                    &&& r->Ok_0.id == id_at(old.macs.len() as int)
                }
                &&& new.contexts == old.contexts.insert(r->Ok_0.id, cc32xx_context(name))
                &&& new.states.contains_key(r->Ok_0.id)
                &&& new.states == old.states.insert(r->Ok_0.id, new.states[r->Ok_0.id])
                &&& fresh_state(new.states[r->Ok_0.id])
                &&& new.path_config == old.path_config
            },
        },
    }
}

/// `sync_device`: a valid id with a context and bookkeeping.
pub open spec fn spec_sync_device(v: CC32xxDeviceView, id: u32) -> Result<(), InfluxErrorCode> {
    match spec_check_id(v, id) {
        Err(e) => Err(e),
        Ok(_) => if !v.contexts.contains_key(id) || !v.states.contains_key(id) {
            Err(InfluxErrorCode::IdNotValid)
        } else {
            Ok(())
        },
    }
}

/// `get_offset`: the timestamp of a buffer count for a valid device.
pub open spec fn spec_offset(v: CC32xxDeviceView, id: u32, current: u128) -> Result<int, InfluxErrorCode> {
    match spec_check_id(v, id) {
        Err(e) => Err(e),
        Ok(_) => if !v.contexts.contains_key(id) || !v.states.contains_key(id) {
            Err(InfluxErrorCode::IdNotValid)
        } else {
            let ls = v.states[id].last_sync;
            let synced = ls.count * 100;
            let offset = if current >= synced {
                current - synced
            } else {
                current as int
            };
            Ok(ls.timestamp + offset * v.contexts[id].sample_period)
        },
    }
}

impl<'a> Devices for CC32xxDevice<'a> {
    type UniqueIdType = CC32xxUniqueIdType;

    type DataBufferType = CC32xxDataBuffer;

    /// The registry is consistent: the `i`-th MAC got id `id_at(i)` and no MAC registered twice.
    closed spec fn wf(&self) -> bool {
        &&& forall|i: int|
            0 <= i < self.mac_id@.len() ==> (#[trigger] self.mac_id@[i]).1.id == id_at(i)
        &&& forall|i: int, j: int|
            0 <= i < j < self.mac_id@.len() ==> self.mac_id@[i].0.id@ != self.mac_id@[j].0.id@
        &&& forall|k: u32|
            #[trigger] self.id_device_state@.contains_key(k) ==> is_given(self.mac_id@.len() as int, k)
        &&& forall|k: u32|
            #[trigger] self.id_db_context@.contains_key(k) ==> is_given(self.mac_id@.len() as int, k)
        &&& forall|k: u32|
            #[trigger] self.id_device_state@.contains_key(k) ==> self.id_device_state@[k]@.count_offset
                == 0
    }

    open spec fn can_count(&self, id: InfluxDbId, len: usize, count_id: usize) -> bool {
        self@.states.contains_key(id.id) ==> counters_fit(self@.states[id.id], len, count_id)
    }

    open spec fn offset_fits(&self, id: InfluxDbId, current_buffer_id: u128) -> bool {
        spec_offset(self@, id.id, current_buffer_id) matches Ok(t) ==> t <= u128::MAX
    }

    open spec fn buffer_min_len() -> nat {
        CC32XX_BUFFER_HEADER_LEN as nat
    }

    open spec fn precision_for(&self, id: InfluxDbId) -> Result<InfluxDbPrecision, InfluxErrorCode> {
        spec_precision(self@, id.id)
    }

    open spec fn period_for(&self, id: InfluxDbId) -> Result<u64, InfluxErrorCode> {
        spec_sample_period(self@, id.id)
    }

    open spec fn header_for(&self, id: InfluxDbId) -> Result<Seq<char>, InfluxErrorCode> {
        spec_data_header(self@, id.id)
    }

    /// A registry with no device, reading its device list from `path_config`.
    fn new(path_config: String) -> (r: Self)
        ensures
            r.wf(),
            r@.macs == Seq::<Seq<u8>>::empty(),
            r@.states == Map::<u32, DeviceStateView>::empty(),
            r@.contexts == Map::<u32, InfluxDbContextView>::empty(),
            r@.path_config == path_config@,
    {
        let r = CC32xxDevice {
            id_device_state: HashMap::new(),
            mac_id: Vec::new(),
            id_db_context: HashMap::new(),
            path_config,
        };
        assert(r@.macs =~= Seq::<Seq<u8>>::empty());
        assert(r@.states =~= Map::<u32, DeviceStateView>::empty());
        assert(r@.contexts =~= Map::<u32, InfluxDbContextView>::empty());
        r
    }

    /// The MQTT topic prefix of the devices.
    fn get_device_topic() -> (s: String)
        ensures
            s@ == CC32XX_TOPIC_STR@,
    {
        String::from_str(CC32XX_TOPIC_STR)
    }

    fn get_maximum_n_devices() -> (n: u32)
        ensures
            n == 40,
    {
        40
    }

    fn data_buffer_from_bytes(bytes: Bytes) -> (r: CC32xxDataBuffer)
        ensures
            r.built_from(bytes_view(bytes)),
    {
        CC32xxDataBuffer::new(bytes)
    }

    /// The measurement context of a CC32xx device named `name`.
    fn create_db_context<'b>(name: String) -> (c: InfluxDbContext<'b>)
        ensures
            c@ == cc32xx_context(name@),
    {
        InfluxDbContext::new(
            name,
            CC32XX_TYPE_OF_MEASUREMENT,
            CC32XX_CATEFORY,
            CC32XX_MEASURE,
            CC32XX_SAMPLE_RATE,
            InfluxDbPrecision::MicroSeconds,
        )
    }

    /// Whether `id` was given to a registered device: exactly one MAC must hold it.
    fn check_id(&self, id: InfluxDbId) -> (r: Result<bool, InfluxErrorCode>)
        ensures
            r == spec_check_id(self@, id.id),
    {
        let n = self.mac_id.len();
        let mut coincidences: usize = 0;
        let mut i: usize = 0;
        while i < n
            invariant
                self.wf(),
                n == self.mac_id@.len(),
                i <= n,
                coincidences == ids_count(i as int, id.id),
                coincidences <= i,
            decreases n - i,
        {
            assert(self.mac_id@[i as int].1.id == id_at(i as int));
            if self.mac_id[i].1.id == id.id {
                coincidences = coincidences + 1;
            }
            i = i + 1;
        }
        if coincidences == 0 {
            Err(InfluxErrorCode::IdDuplicated)
        } else if coincidences == 1 {
            Ok(true)
        } else {
            Err(InfluxErrorCode::IdNotValid)
        }
    }

    fn get_sample_period(&self, id: InfluxDbId) -> (r: Result<u64, InfluxErrorCode>)
        ensures
            r == spec_sample_period(self@, id.id),
    {
        match self.id_db_context.get(&id.id) {
            None => Err(InfluxErrorCode::IdNotValid),
            Some(db_context) => {
                let period = db_context.get_sample_period()?;
                Ok(period)
            },
        }
    }

    fn get_precision(&self, id: InfluxDbId) -> (r: Result<InfluxDbPrecision, InfluxErrorCode>)
        ensures
            r == spec_precision(self@, id.id),
    {
        self.check_id(id)?;
        match self.id_db_context.get(&id.id) {
            None => Err(InfluxErrorCode::IdNotValid),
            Some(db_context) => {
                let precision = db_context.get_precision()?;
                Ok(precision)
            },
        }
    }

    fn get_name(&self, id: InfluxDbId) -> (r: Result<String, InfluxErrorCode>)
        ensures
            r is Ok <==> spec_name(self@, id.id) is Ok,
            r matches Ok(n) ==> spec_name(self@, id.id) == Ok::<Seq<char>, InfluxErrorCode>(n@),
            r matches Err(e) ==> spec_name(self@, id.id) == Err::<Seq<char>, InfluxErrorCode>(e),
    {
        self.check_id(id)?;
        match self.id_db_context.get(&id.id) {
            None => Err(InfluxErrorCode::IdNotValid),
            Some(db_context) => {
                let name = db_context.get_name()?;
                Ok(name)
            },
        }
    }

    /// The bookkeeping of a device registering under `id` now: fresh counters,
    /// synchronised now with a count of zero. Fails when `id` has no context.
    fn create_device_state(&self, id: InfluxDbId, server_time_ns: u128) -> (r: Result<
        DeviceState,
        InfluxErrorCode,
    >)
        ensures
            r is Ok <==> self@.contexts.contains_key(id.id),
            r is Err ==> r->Err_0 == InfluxErrorCode::IdNotValid,
            r matches Ok(d) ==> fresh_state(d@),
    {
        let mut device_state = DeviceState::new();
        let now = TimeStampCount::new();
        let sample_period = self.get_sample_period(id)?;
        let _ = device_state.sync_state(now, server_time_ns, sample_period);
        Ok(device_state)
    }

    /// Registers the device with MAC `unique_id`, when the configuration lists it,
    /// and returns its local id: the id it already had, or the next one. Its context
    /// is set from the configured name and its bookkeeping starts afresh.
    /// `config` is the configuration read from `path_config`, `None` when it could
    /// not be read.
    fn add_unique_id(
        &mut self,
        unique_id: CC32xxUniqueIdType,
        server_time_ns: u128,
        config: Option<&ConfigFile>,
    ) -> (r: Result<InfluxDbId, InfluxErrorCode>)
        ensures
            final(self).wf(),
            registration(
                old(self)@,
                final(self)@,
                unique_id.id@,
                match config {
                    None => None,
                    Some(c) => Some(c.devices@),
                },
                r,
            ),
    {
        let cfg = match config {
            None => {
                return Err(InfluxErrorCode::NotValidConfigFile);
            },
            Some(c) => c,
        };
        let key = unique_id.get_id_string();
        let device_name = match cfg.device_name(&key) {
            None => {
                return Err(InfluxErrorCode::UniqueIdNotRegistered);
            },
            Some(n) => n,
        };
        let ghost old_macs = self.mac_id@;
        let next_id = Self::next_id(self.mac_id.len());
        let id = match self.find_mac(&unique_id) {
            Some(i) => {
                assert(self.mac_id@[i as int].1.id == id_at(i as int));
                self.mac_id[i].1
            },
            None => {
                self.mac_id.push((unique_id, next_id));
                assert(self.mac_id@.map_values(|e: (CC32xxUniqueIdType, InfluxDbId)| e.0.id@)
                    =~= old_macs.map_values(|e: (CC32xxUniqueIdType, InfluxDbId)| e.0.id@).push(
                    unique_id.id@,
                ));
                assert forall|i: int, j: int|
                    0 <= i < j < self.mac_id@.len() implies self.mac_id@[i].0.id@
                    != self.mac_id@[j].0.id@ by {
                    if j == old_macs.len() {
                        assert(old_macs.map_values(
                            |e: (CC32xxUniqueIdType, InfluxDbId)| e.0.id@,
                        )[i] == old_macs[i].0.id@);
                    }
                }
                next_id
            },
        };
        self.id_db_context.insert(id.id, Self::create_db_context(device_name));
        assert(self@.contexts =~= old(self)@.contexts.insert(id.id, cc32xx_context(device_name@)));
        let state = self.create_device_state(id, server_time_ns)?;
        self.id_device_state.insert(id.id, state);
        assert(self@.states =~= old(self)@.states.insert(id.id, state@));
        Ok(id)
    }

    /// Counts a data packet of `len` bytes numbered `count_id` for the device `id`
    /// and returns how many packets it shows lost.
    fn add_data_packet(&mut self, id: InfluxDbId, len: usize, count_id: usize) -> (r: Result<
        usize,
        InfluxErrorCode,
    >)
        ensures
            final(self).wf(),
            final(self)@.macs == old(self)@.macs,
            final(self)@.contexts == old(self)@.contexts,
            final(self)@.path_config == old(self)@.path_config,
            !old(self)@.states.contains_key(id.id) ==> r == Err::<usize, InfluxErrorCode>(
                InfluxErrorCode::IdNotValid,
            ),
            old(self)@.states.contains_key(id.id) ==> r == packets_lost(
                old(self)@.states[id.id].last_msg_count,
                count_id,
            ),
            r matches Ok(lost) ==> final(self)@.states == old(self)@.states.insert(
                id.id,
                counted(old(self)@.states[id.id], len, count_id, lost),
            ),
            r is Err ==> final(self)@.states == old(self)@.states,
    {
        let mut state = match self.id_device_state.get(&id.id) {
            None => {
                return Err(InfluxErrorCode::IdNotValid);
            },
            Some(s) => *s,
        };
        let count = state.add_data_packet(len, count_id)?;
        self.id_device_state.insert(id.id, state);
        assert(self@.states =~= old(self)@.states.insert(
            id.id,
            counted(old(self)@.states[id.id], len, count_id, count),
        ));
        Ok(count)
    }

    /// Records the last synchronisation of a valid device.
    fn sync_device(&mut self, id: InfluxDbId, last_sync: TimeStampCount, server_time_ns: u128) -> (r:
        Result<(), InfluxErrorCode>)
        ensures
            final(self).wf(),
            final(self)@.macs == old(self)@.macs,
            final(self)@.contexts == old(self)@.contexts,
            final(self)@.path_config == old(self)@.path_config,
            r == spec_sync_device(old(self)@, id.id),
            r is Ok ==> final(self)@.states == old(self)@.states.insert(
                id.id,
                DeviceStateView { last_sync, ..old(self)@.states[id.id] },
            ),
            r is Err ==> final(self)@.states == old(self)@.states,
    {
        self.check_id(id)?;
        let sample_period = match self.id_db_context.get(&id.id) {
            None => {
                return Err(InfluxErrorCode::IdNotValid);
            },
            Some(db_context) => db_context.get_sample_period()?,
        };
        let mut state = match self.id_device_state.get(&id.id) {
            None => {
                return Err(InfluxErrorCode::IdNotValid);
            },
            Some(s) => *s,
        };
        state.sync_state(last_sync, server_time_ns, sample_period)?;
        self.id_device_state.insert(id.id, state);
        assert(self@.states =~= old(self)@.states.insert(
            id.id,
            DeviceStateView { last_sync, ..old(self)@.states[id.id] },
        ));
        Ok(())
    }

    /// Device-clock timestamp of the buffer numbered `current_buffer_id`: the last
    /// synchronisation's timestamp plus one sample period per count since it (the
    /// synchronised count is in hundreds; an earlier buffer counts from zero).
    fn get_offset(&self, id: InfluxDbId, current_buffer_id: u128) -> (r: Result<
        u128,
        InfluxErrorCode,
    >)
        ensures
            match spec_offset(self@, id.id, current_buffer_id) {
                Ok(t) => r == Ok::<u128, InfluxErrorCode>(t as u128),
                Err(e) => r == Err::<u128, InfluxErrorCode>(e),
            },
    {
        self.check_id(id)?;
        let sample_period = match self.id_db_context.get(&id.id) {
            None => {
                return Err(InfluxErrorCode::IdNotValid);
            },
            Some(db_context) => db_context.get_sample_period()?,
        };
        match self.id_device_state.get(&id.id) {
            None => Err(InfluxErrorCode::IdNotValid),
            Some(device_state) => {
                let last_sync = device_state.get_last_sync();
                let synced = last_sync.count as u128 * 100;
                let count_offset = if current_buffer_id >= synced {
                    current_buffer_id - synced
                } else {
                    current_buffer_id
                };
                assert(count_offset * sample_period <= last_sync.timestamp + count_offset
                    * sample_period) by (nonlinear_arith)
                    requires
                        count_offset >= 0,
                        sample_period >= 0,
                ;
                let timestamp = last_sync.timestamp as u128 + (count_offset * sample_period as u128);
                Ok(timestamp)
            },
        }
    }

    fn get_data_header(&self, id: InfluxDbId) -> (r: Result<String, InfluxErrorCode>)
        ensures
            r is Ok <==> spec_data_header(self@, id.id) is Ok,
            r matches Ok(h) ==> spec_data_header(self@, id.id) == Ok::<Seq<char>, InfluxErrorCode>(
                h@,
            ),
            r matches Err(e) ==> spec_data_header(self@, id.id) == Err::<Seq<char>, InfluxErrorCode>(
                e,
            ),
    {
        self.check_id(id)?;
        match self.id_db_context.get(&id.id) {
            None => Err(InfluxErrorCode::IdDbContext),
            Some(db_context) => db_context.gen_data_hedaer(),
        }
    }
}

impl<'a> CC32xxDevice<'a> {
    /// What the consistency of the registry shows in its view: no MAC registered twice.
    pub proof fn lemma_wf_view(&self)
        requires
            self.wf(),
        ensures
            self@.macs.no_duplicates(),
            forall|k: u32| #[trigger] self@.states.contains_key(k) ==> is_given(self@.macs.len() as int, k),
            forall|k: u32| #[trigger] self@.contexts.contains_key(k) ==> is_given(self@.macs.len() as int, k),
            forall|k: u32| #[trigger] self@.states.contains_key(k) ==> self@.states[k].count_offset == 0,
    {
        assert forall|i: int, j: int|
            0 <= i < self@.macs.len() && 0 <= j < self@.macs.len() && i != j implies self@.macs[i]
            != self@.macs[j] by {
            if i < j {
                assert(self.mac_id@[i].0.id@ != self.mac_id@[j].0.id@);
            } else {
                assert(self.mac_id@[j].0.id@ != self.mac_id@[i].0.id@);
            }
        }
    }

    /// The id the next device registered gets: one more than the number registered,
    /// wrapping around after `u32::MAX`.
    fn next_id(current_lenght: usize) -> (r: InfluxDbId)
        ensures
            r.id == id_at(current_lenght as int),
    {
        InfluxDbId { id: (current_lenght as u128 + 1) as u32 }
    }

    /// The path of the file that lists the devices allowed to register.
    pub fn path_config(&self) -> (r: &String)
        ensures
            r@ == self@.path_config,
    {
        &self.path_config
    }

    /// Position of `mac` among the registered MACs, if it registered.
    fn find_mac(&self, mac: &CC32xxUniqueIdType) -> (r: Option<usize>)
        requires
            self.wf(),
        ensures
            r matches Some(i) ==> i < self@.macs.len() && self@.macs[i as int] == mac.id@,
            r is None ==> !self@.macs.contains(mac.id@),
    {
        let n = self.mac_id.len();
        let mut i: usize = 0;
        while i < n
            invariant
                n == self.mac_id@.len(),
                i <= n,
                forall|j: int| 0 <= j < i ==> self@.macs[j] != mac.id@,
            decreases n - i,
        {
            if self.mac_id[i].0.same(mac) {
                return Some(i);
            }
            i = i + 1;
        }
        None
    }

    /// Counting a packet for `id` fits its counters (or `id` has no bookkeeping).
    pub fn can_count_packet(&self, id: InfluxDbId, len: usize, count_id: usize) -> (r: bool)
        ensures
            r == (self@.states.contains_key(id.id) ==> counters_fit(
                self@.states[id.id],
                len,
                count_id,
            )),
    {
        match self.id_device_state.get(&id.id) {
            None => true,
            Some(state) => state.can_count(len, count_id),
        }
    }

}

// ----- samples -----

/// First sample of a packed triple: the 8 bits of `b0`, then the high nibble of `b1`.
pub open spec fn sample_hi(b0: u8, b1: u8) -> u16 {
    (b0 as int * 16 + b1 as int / 16) as u16
}

/// Second sample of a packed triple: the low nibble of `b1`, then the 8 bits of `b2`.
pub open spec fn sample_lo(b1: u8, b2: u8) -> u16 {
    ((b1 as int % 16) * 256 + b2 as int) as u16
}

/// The 12-bit samples packed in `s`, two per three bytes; a last incomplete triple holds none.
pub open spec fn unpack_samples(s: Seq<u8>) -> Seq<u16>
    decreases s.len(),
{
    if s.len() < 3 {
        Seq::<u16>::empty()
    } else {
        seq![sample_hi(s[0], s[1]), sample_lo(s[1], s[2])] + unpack_samples(s.skip(3))
    }
}

/// Header of a CC32xx data buffer.
pub struct CC32xxDataBufferHeader {
    buffer_id: u64,
}

impl DataBufferHeader for CC32xxDataBufferHeader {
    closed spec fn buffer_id(&self) -> u64 {
        self.buffer_id
    }

    fn get_buffer_id(&self) -> (r: u64) {
        self.buffer_id
    }
}

impl CC32xxDataBufferHeader {
    /// The header as it displays.
    pub fn to_string(&self) -> (s: String)
        ensures
            s@ == "Buffer id = "@ + dec(self.buffer_id() as nat),
    {
        let mut s = String::from_str("Buffer id = ");
        push_decimal(&mut s, self.buffer_id as u128);
        s
    }
}

/// A data buffer of a CC32xx device: its header, the packed samples not yet
/// taken, and the second sample of the last triple when it has not been taken yet.
pub struct CC32xxDataBuffer {
    pub header: CC32xxDataBufferHeader,
    pub buffer: Bytes,
    pub next_value: Option<u16>,
    last_time: Option<u128>,
    last_buffer_id: Option<u128>,
}

impl CC32xxDataBuffer {
    /// The packed sample bytes not yet taken.
    pub closed spec fn packed(&self) -> Seq<u8> {
        bytes_view(self.buffer)
    }

    /// The second sample of the last triple taken, when it has not been taken yet
    /// (the field `next_value`).
    pub closed spec fn held(&self) -> Option<u16> {
        self.next_value
    }

    /// The samples still to be taken, in order.
    pub closed spec fn pending(&self) -> Seq<u16> {
        (match self.next_value {
            Some(v) => seq![v],
            None => Seq::<u16>::empty(),
        }) + unpack_samples(self.packed())
    }

    /// `next` can run: a sample is held back, or the packed bytes are empty or
    /// hold at least one triple (one or two stray bytes make the buffer panic).
    pub closed spec fn can_step(&self) -> bool {
        self.next_value is Some || self.packed().len() == 0 || self.packed().len() >= 3
    }

    /// Every sample can be taken in turn: the packed bytes are whole triples.
    pub closed spec fn whole_triples(&self) -> bool {
        self.packed().len() % 3 == 0
    }

    /// Reads the buffer header off `buffer`; the rest are the packed samples.
    pub fn new(buffer: Bytes) -> (r: CC32xxDataBuffer)
        requires
            bytes_view(buffer).len() >= CC32XX_BUFFER_HEADER_LEN,
        ensures
            r.built_from(bytes_view(buffer)),
            r.buffer_id() == le_u64(bytes_view(buffer), 0),
            r.packed() == bytes_view(buffer).skip(CC32XX_BUFFER_HEADER_LEN as int),
            r.pending() == unpack_samples(r.packed()),
            r.last_time() is None,
            r.held() is None,
    {
        let mut buffer = buffer;
        let header = bytes_split_to(&mut buffer, CC32XX_BUFFER_HEADER_LEN);
        let buffer_id = read_u64(bytes_as_slice(&header)).unwrap();
        CC32xxDataBuffer {
            header: CC32xxDataBufferHeader { buffer_id },
            buffer,
            next_value: None,
            last_time: None,
            last_buffer_id: None,
        }
    }

    pub fn id(&self) -> (r: u64)
        ensures
            r == self.buffer_id(),
    {
        self.header.buffer_id
    }

    /// Number of packed bytes not yet taken.
    pub fn len(&self) -> (r: usize)
        ensures
            r == self.packed().len(),
    {
        bytes_len(&self.buffer)
    }

    /// Takes the next 12-bit sample: the held-back one if there is one, else the
    /// first of the next packed triple, holding back the second.
    pub fn next(&mut self) -> (r: Option<u16>)
        requires
            old(self).can_step(),
        ensures
            next_step(*old(self), *final(self), r),
            r == (if old(self).pending().len() > 0 {
                Some(old(self).pending()[0])
            } else {
                None::<u16>
            }),
            final(self).pending() == (if old(self).pending().len() > 0 {
                old(self).pending().drop_first()
            } else {
                old(self).pending()
            }),
            old(self).whole_triples() ==> final(self).whole_triples(),
            final(self).whole_triples() ==> final(self).can_step(),
            r is None ==> final(self).packed().len() == 0 && final(self).pending().len() == 0,
            final(self).buffer_id() == old(self).buffer_id(),
            final(self).last_time() == old(self).last_time(),
    {
        match self.next_value {
            Some(next_value) => {
                self.next_value = None;
                assert(old(self).pending() == seq![next_value] + self.pending());
                assert(self.pending() =~= old(self).pending().drop_first());
                Some(next_value)
            },
            None => {
                let ghost s = bytes_view(self.buffer);
                if bytes_len(&self.buffer) == 0 {
                    assert(self.pending() =~= Seq::<u16>::empty());
                    return None;
                }
                let triple = if bytes_len(&self.buffer) > 3 {
                    bytes_split_to(&mut self.buffer, 3)
                } else {
                    let temp = bytes_slice_prefix(&self.buffer, 3);
                    bytes_clear(&mut self.buffer);
                    assert(s.skip(3) =~= Seq::<u8>::empty());
                    temp
                };
                let bytes = bytes_as_slice(&triple);
                let first_byte = bytes[0] as u16;
                let second_byte = bytes[1] as u16;
                let third_byte = bytes[2] as u16;
                assert(((first_byte & 0x00FF) << 4) == first_byte * 16 && ((second_byte & 0x00F0)
                    >> 4) == second_byte / 16) by (bit_vector)
                    requires
                        first_byte < 256,
                        second_byte < 256,
                ;
                assert(((second_byte & 0x000F) << 8) == (second_byte % 16) * 256 && (third_byte
                    & 0x00FF) == third_byte) by (bit_vector)
                    requires
                        second_byte < 256,
                        third_byte < 256,
                ;
                let hi = ((first_byte & 0x00FF) << 4) + ((second_byte & 0x00F0) >> 4);
                let lo = ((second_byte & 0x000F) << 8) + ((third_byte) & 0x00FF);
                self.next_value = Some(lo);
                assert(unpack_samples(s) == seq![sample_hi(s[0], s[1]), sample_lo(s[1], s[2])]
                    + unpack_samples(s.skip(3)));
                assert(old(self).pending() =~= seq![hi] + self.pending());
                assert(self.pending() =~= old(self).pending().drop_first());
                Some(hi)
            },
        }
    }
}

impl DataBuffer for CC32xxDataBuffer {
    type DataBufferHeaderType = CC32xxDataBufferHeader;

    open spec fn min_len() -> nat {
        CC32XX_BUFFER_HEADER_LEN as nat
    }

    closed spec fn built_from(&self, bytes: Seq<u8>) -> bool {
        &&& self.header.buffer_id == le_u64(bytes, 0)
        &&& bytes_view(self.buffer) == bytes.skip(CC32XX_BUFFER_HEADER_LEN as int)
        &&& self.next_value is None
        &&& self.last_time is None
        &&& self.last_buffer_id is None
    }

    closed spec fn buffer_id(&self) -> u64 {
        self.header.buffer_id
    }

    closed spec fn last_time(&self) -> Option<u128> {
        self.last_time
    }

    fn from_bytes(bytes: Bytes) -> (r: Self) {
        CC32xxDataBuffer::new(bytes)
    }

    fn get_buffer_id(&self) -> (r: u64) {
        self.header.buffer_id
    }

    fn get_last_time(&self) -> (r: Option<u128>) {
        self.last_time
    }

    open spec fn body_for(
        &self,
        prec: Result<InfluxDbPrecision, InfluxErrorCode>,
        period: Result<u64, InfluxErrorCode>,
        header: Result<Seq<char>, InfluxErrorCode>,
        server_time_ns: u128,
        last_sync: TimeStampCount,
    ) -> Result<(Seq<char>, int), InfluxErrorCode> {
        body_result(prec, period, header, self.buffer_id(), self.pending(), server_time_ns, last_sync)
    }

    open spec fn can_write_body(
        &self,
        prec: Result<InfluxDbPrecision, InfluxErrorCode>,
        period: Result<u64, InfluxErrorCode>,
        header: Result<Seq<char>, InfluxErrorCode>,
        server_time_ns: u128,
        last_sync: TimeStampCount,
    ) -> bool {
        body_runs(
            prec,
            period,
            header,
            self.buffer_id(),
            self.pending().len() as int,
            self.can_step(),
            self.whole_triples(),
            server_time_ns,
            last_sync,
        )
    }

    /// Each sample's timestamp is the server start time plus one sampling period per
    /// count since then; on an error found at the first sample, that sample is taken.
    #[verifier::rlimit(40)]
    fn db_create_body<D: Devices>(
        &mut self,
        id: InfluxDbId,
        device: &D,
        server_time_ns: u128,
        last_sync: TimeStampCount,
    ) -> (r: Result<(String, u128), InfluxErrorCode>)
        ensures
            old(self).whole_triples() ==> final(self).whole_triples(),
            r is Ok ==> final(self).pending() == Seq::<u16>::empty() && final(self).packed().len()
                == 0,
            r is Err && device.precision_for(id) is Ok && device.period_for(id) is Ok
                ==> final(self).pending() == old(self).pending().drop_first(),
            r is Err && !(device.precision_for(id) is Ok && device.period_for(id) is Ok)
                ==> final(self).pending() == old(self).pending(),
    {
        let ghost p = self.pending();
        let mut string_out = String::new();
        let mut last_value: u128 = 0;
        let start_count_id = self.header.buffer_id as u128 * 100;
        let mut index: usize = 0;
        let device_precision = device.get_precision(id)?;
        let sample_period = device.get_sample_period(id)?;
        // The packed bytes are counted in a usize, and so are the samples they hold.
        let _packed_len = self.len();
        proof {
            lemma_unpack_len(self.packed());
        }
        let ghost c = buffer_clock(
            self.header.buffer_id,
            server_time_ns,
            last_sync,
            sample_period,
            device_precision,
        );
        let ghost header = match device.header_for(id) {
            Ok(h) => h,
            Err(_) => Seq::<char>::empty(),
        };
        let ghost writable = body_error(self.header.buffer_id, server_time_ns, last_sync, sample_period)
            is None && device.header_for(id) is Ok;
        let multiplier = device_precision.get_multiplier() as u128;
        let nanos = InfluxDbPrecision::NanoSeconds.get_multiplier() as u128;
        loop
            invariant
                old(self).whole_triples() ==> self.whole_triples(),
                index == 0 ==> self.can_step(),
                writable ==> self.whole_triples(),
                writable == (body_error(
                    self.header.buffer_id,
                    server_time_ns,
                    last_sync,
                    sample_period,
                ) is None && device.header_for(id) is Ok),
                self.buffer_id() == old(self).buffer_id(),
                self.last_time() == old(self).last_time(),
                device.wf(),
                device.precision_for(id) == Ok::<InfluxDbPrecision, InfluxErrorCode>(device_precision),
                device.period_for(id) == Ok::<u64, InfluxErrorCode>(sample_period),
                device.header_for(id) is Ok ==> device.header_for(id) == Ok::<
                    Seq<char>,
                    InfluxErrorCode,
                >(header),
                start_count_id == self.header.buffer_id as u128 * 100,
                multiplier == precision_multiplier(device_precision),
                nanos == 1000000000,
                c == buffer_clock(
                    self.header.buffer_id,
                    server_time_ns,
                    last_sync,
                    sample_period,
                    device_precision,
                ),
                p == old(self).pending(),
                index <= p.len(),
                p.len() <= usize::MAX,
                self.pending() == p.skip(index as int),
                index > 0 ==> writable,
                p.len() > 0 && writable ==> body_fits(c, p.len() as int),
                string_out@ == sample_lines(header, p, c, index as int),
                index == 0 ==> last_value == 0,
                index > 0 ==> last_value == sample_time(c, index - 1),
            ensures
                self.buffer_id() == old(self).buffer_id(),
                old(self).whole_triples() ==> self.whole_triples(),
                index == p.len(),
                self.pending() == Seq::<u16>::empty(),
                self.packed().len() == 0,
                string_out@ == sample_lines(header, p, c, p.len() as int),
                index == 0 ==> last_value == 0,
                index > 0 ==> last_value == sample_time(c, index - 1),
                index > 0 ==> writable,
                self.last_time() == old(self).last_time(),
            decreases p.len() - index,
        {
            let value = match self.next() {
                None => {
                    assert(p.skip(index as int).len() == 0);
                    break ;
                },
                Some(v) => v,
            };
            assert(p.skip(index as int).drop_first() =~= p.skip(index + 1));
            let current_count_id = start_count_id + index as u128;
            index = index + 1;
            assert(p.skip(1) =~= p.drop_first());
            let ts = last_sync.timestamp as u128;
            if ts < server_time_ns {
                return Err(InfluxErrorCode::TimeBeforeServerTime);
            }
            let interval_time = ts - server_time_ns;
            if sample_period == 0 {
                return Err(InfluxErrorCode::SamplePeriodNotDiv);
            }
            let diff_count_last_sync = interval_time / sample_period as u128;
            let synced = last_sync.count as u128 * 100;
            if current_count_id < synced {
                return Err(InfluxErrorCode::TimeBeforeLastSync);
            }
            let diff_count = current_count_id - synced;
            let data_header = device.get_data_header(id)?;
            proof {
                lemma_time_monotone(c, index - 1, p.len() as int);
            }
            let current_timestamp = server_time_ns + ((diff_count + diff_count_last_sync)
                * sample_period as u128);
            let time_value = (current_timestamp * multiplier) / nanos;
            last_value = time_value;
            string_out.append(data_header.as_str());
            push_char(&mut string_out, '=');
            push_decimal(&mut string_out, value as u128);
            push_char(&mut string_out, ' ');
            push_decimal(&mut string_out, time_value);
            push_char(&mut string_out, '\n');
            assert(string_out@ =~= sample_lines(header, p, c, index as int));
        }
        self.last_time = Some(last_value);
        Ok((string_out, last_value))
    }
}

// ----- line-protocol bodies of a buffer -----

/// How the timestamps of a buffer's samples are reckoned: from the server start
/// time, the buffer counts between the last synchronisation and the server start,
/// the sampling period, the count of the buffer's first sample since the last
/// synchronisation, and the units of the precision in a second.
pub struct SampleClock {
    pub server: int,
    pub interval: int,
    pub period: int,
    pub first: int,
    pub multiplier: int,
}

/// The clock of buffer `buffer_id` written at server time `server` after the
/// synchronisation `last_sync`, for a device with period `period` and precision `prec`.
/// Counts are in samples; a buffer holds a hundred counts.
pub open spec fn buffer_clock(
    buffer_id: u64,
    server: u128,
    last_sync: TimeStampCount,
    period: u64,
    prec: InfluxDbPrecision,
) -> SampleClock {
    SampleClock {
        server: server as int,
        interval: (last_sync.timestamp - server) / (period as int),
        period: period as int,
        first: buffer_id * 100 - last_sync.count * 100,
        multiplier: precision_multiplier(prec) as int,
    }
}

/// Timestamp, in the clock's precision, of the `k`-th sample of the buffer.
pub open spec fn sample_time(c: SampleClock, k: int) -> int {
    (c.server + (c.first + k + c.interval) * c.period) * c.multiplier / 1000000000
}

/// Line `HEADER=VALUE TIME` of one sample.
pub open spec fn sample_line(header: Seq<char>, value: u16, time: int) -> Seq<char> {
    header + seq!['='] + dec(value as nat) + seq![' '] + dec(time as nat) + seq!['\n']
}

/// The lines of the first `k` samples.
pub open spec fn sample_lines(header: Seq<char>, samples: Seq<u16>, c: SampleClock, k: int) -> Seq<
    char,
>
    decreases k,
{
    if k <= 0 {
        Seq::<char>::empty()
    } else {
        sample_lines(header, samples, c, k - 1) + sample_line(
            header,
            samples[k - 1],
            sample_time(c, k - 1),
        )
    }
}

/// Why a buffer with samples cannot be written: the synchronisation is earlier than
/// the server start, the period is zero, or the buffer is older than the synchronisation.
pub open spec fn body_error(buffer_id: u64, server: u128, last_sync: TimeStampCount, period: u64) -> Option<
    InfluxErrorCode,
> {
    if (last_sync.timestamp as int) < server {
        Some(InfluxErrorCode::TimeBeforeServerTime)
    } else if period == 0 {
        Some(InfluxErrorCode::SamplePeriodNotDiv)
    } else if buffer_id * 100 < last_sync.count * 100 {
        Some(InfluxErrorCode::TimeBeforeLastSync)
    } else {
        None
    }
}

/// The last timestamp of `n` samples, before scaling to the precision, fits in 128 bits.
pub open spec fn body_fits(c: SampleClock, n: int) -> bool {
    (c.server + (c.first + (n - 1) + c.interval) * c.period) * c.multiplier <= u128::MAX
}

/// Timestamps grow with the sample number.
proof fn lemma_time_monotone(c: SampleClock, k: int, n: int)
    requires
        0 <= k < n,
        c.server >= 0,
        c.first >= 0,
        c.interval >= 0,
        c.period >= 0,
        c.multiplier >= 1,
    ensures
        (c.first + k + c.interval) * c.period <= (c.first + (n - 1) + c.interval) * c.period,
        c.server + (c.first + k + c.interval) * c.period <= (c.server + (c.first + k + c.interval)
            * c.period) * c.multiplier,
        (c.server + (c.first + k + c.interval) * c.period) * c.multiplier <= (c.server + (c.first + (
        n - 1) + c.interval) * c.period) * c.multiplier,
        0 <= (c.first + k + c.interval) * c.period,
{
    let a = c.first + k + c.interval;
    let b = c.first + (n - 1) + c.interval;
    assert(a * c.period <= b * c.period) by (nonlinear_arith)
        requires
            0 <= a <= b,
            c.period >= 0,
    ;
    assert(0 <= a * c.period) by (nonlinear_arith)
        requires
            0 <= a,
            c.period >= 0,
    ;
    let x = c.server + a * c.period;
    let y = c.server + b * c.period;
    assert(x <= x * c.multiplier) by (nonlinear_arith)
        requires
            x >= 0,
            c.multiplier >= 1,
    ;
    assert(x * c.multiplier <= y * c.multiplier) by (nonlinear_arith)
        requires
            0 <= x <= y,
            c.multiplier >= 1,
    ;
}

/// Writing out a buffer `buffer_id` holding `n` samples runs without panicking, for a
/// device whose precision, sampling period and line start are `prec`, `period` and
/// `header`; `first_step` says whether the buffer's first sample can be taken and
/// `whole` whether all of them can. Nothing is taken when the precision or the period
/// is missing. When the first sample shows the buffer cannot be written, only that
/// sample is taken. Otherwise every sample is taken, and the last timestamp must fit
/// in 128 bits.
pub open spec fn body_runs(
    prec: Result<InfluxDbPrecision, InfluxErrorCode>,
    period: Result<u64, InfluxErrorCode>,
    header: Result<Seq<char>, InfluxErrorCode>,
    buffer_id: u64,
    n: int,
    first_step: bool,
    whole: bool,
    server: u128,
    last_sync: TimeStampCount,
) -> bool {
    prec matches Ok(prec) ==> (period matches Ok(period) ==> (
    if body_error(buffer_id, server, last_sync, period) is Some || header is Err {
        first_step
    } else {
        whole && (n > 0 ==> body_fits(buffer_clock(buffer_id, server, last_sync, period, prec), n))
    }))
}

/// What writing out the samples `p` of buffer `buffer_id` gives, for a device whose
/// precision, sampling period and line start are `prec`, `period` and `header`: the
/// lines and the last timestamp (none and zero for no samples), or why not.
pub open spec fn body_result(
    prec: Result<InfluxDbPrecision, InfluxErrorCode>,
    period: Result<u64, InfluxErrorCode>,
    header: Result<Seq<char>, InfluxErrorCode>,
    buffer_id: u64,
    p: Seq<u16>,
    server: u128,
    last_sync: TimeStampCount,
) -> Result<(Seq<char>, int), InfluxErrorCode> {
    match prec {
        Err(e) => Err(e),
        Ok(prec) => match period {
            Err(e) => Err(e),
            Ok(period) => {
                let c = buffer_clock(buffer_id, server, last_sync, period, prec);
                if p.len() == 0 {
                    Ok((Seq::<char>::empty(), 0))
                } else {
                    match body_error(buffer_id, server, last_sync, period) {
                        Some(e) => Err(e),
                        None => match header {
                            Err(e) => Err(e),
                            Ok(h) => Ok(
                                (sample_lines(h, p, c, p.len() as int), sample_time(c, p.len() - 1)),
                            ),
                        },
                    }
                }
            },
        },
    }
}

/// `body_runs` for the CC32xx device `id` of the registry `v`.
pub open spec fn body_can_run(
    v: CC32xxDeviceView,
    id: u32,
    buffer_id: u64,
    n: int,
    first_step: bool,
    whole: bool,
    server: u128,
    last_sync: TimeStampCount,
) -> bool {
    body_runs(
        spec_precision(v, id),
        spec_sample_period(v, id),
        spec_data_header(v, id),
        buffer_id,
        n,
        first_step,
        whole,
        server,
        last_sync,
    )
}

/// `body_result` for the CC32xx device `id` of the registry `v`.
pub open spec fn spec_db_body(
    v: CC32xxDeviceView,
    id: u32,
    buffer_id: u64,
    p: Seq<u16>,
    server: u128,
    last_sync: TimeStampCount,
) -> Result<(Seq<char>, int), InfluxErrorCode> {
    body_result(
        spec_precision(v, id),
        spec_sample_period(v, id),
        spec_data_header(v, id),
        buffer_id,
        p,
        server,
        last_sync,
    )
}

/// Two samples come out of every whole triple.
pub proof fn lemma_unpack_len(s: Seq<u8>)
    ensures
        unpack_samples(s).len() == (s.len() / 3) * 2,
    decreases s.len(),
{
    if s.len() >= 3 {
        lemma_unpack_len(s.skip(3));
    }
}

/// One call of `next` took the buffer from `b0` to `b1` and gave `r`: the first
/// pending sample, which leaves, or `None` with nothing pending and nothing changed;
/// whole triples stay whole, and so the buffer can step again.
pub open spec fn next_step(b0: CC32xxDataBuffer, b1: CC32xxDataBuffer, r: Option<u16>) -> bool {
    &&& r == (if b0.pending().len() > 0 {
        Some(b0.pending()[0])
    } else {
        None::<u16>
    })
    &&& b1.pending() == (if b0.pending().len() > 0 {
        b0.pending().drop_first()
    } else {
        b0.pending()
    })
    &&& b0.whole_triples() ==> b1.whole_triples() && b1.can_step()
    &&& b1.buffer_id() == b0.buffer_id()
    &&& b1.last_time() == b0.last_time()
}

/// Law: successive calls of `next` on a buffer `bs[0]` whose bytes are whole triples
/// give its pending samples in order, then `None` for ever; each call can be made.
pub proof fn lemma_next_drains(bs: Seq<CC32xxDataBuffer>, rs: Seq<Option<u16>>)
    requires
        bs.len() == rs.len() + 1,
        bs[0].whole_triples(),
        forall|j: int| 0 <= j < rs.len() ==> next_step(bs[j], bs[j + 1], #[trigger] rs[j]),
    ensures
        forall|j: int| 0 <= j < bs.len() ==> (#[trigger] bs[j]).can_step(),
        forall|j: int|
            0 <= j < rs.len() ==> #[trigger] rs[j] == (if j < bs[0].pending().len() {
                Some(bs[0].pending()[j])
            } else {
                None::<u16>
            }),
    decreases rs.len(),
{
    let n = rs.len() as int;
    if n > 0 {
        let bs1 = bs.drop_last();
        let rs1 = rs.drop_last();
        assert forall|j: int| 0 <= j < rs1.len() implies next_step(bs1[j], bs1[j + 1], #[trigger] rs1[j]) by {
            assert(next_step(bs[j], bs[j + 1], rs[j]));
        }
        lemma_next_drains(bs1, rs1);
        lemma_pending_after(bs, rs, n - 1);
        lemma_buffer_steps(bs[0]);
        assert forall|j: int| 0 <= j < bs.len() implies (#[trigger] bs[j]).can_step() by {
            if j < n {
                assert(bs1[j].can_step());
            } else {
                lemma_whole_after(bs, rs, n);
                assert(next_step(bs[n - 1], bs[n], rs[n - 1]));
            }
        }
        assert forall|j: int| 0 <= j < rs.len() implies #[trigger] rs[j] == (if j < bs[0].pending().len() {
            Some(bs[0].pending()[j])
        } else {
            None::<u16>
        }) by {
            if j < n - 1 {
                assert(rs1[j] == rs[j]);
            } else {
                assert(next_step(bs[n - 1], bs[n], rs[n - 1]));
            }
        }
    }
}

/// After `k` calls the pending samples are those of `bs[0]` past the first `k`.
proof fn lemma_pending_after(bs: Seq<CC32xxDataBuffer>, rs: Seq<Option<u16>>, k: int)
    requires
        bs.len() == rs.len() + 1,
        0 <= k <= rs.len(),
        forall|j: int| 0 <= j < rs.len() ==> next_step(bs[j], bs[j + 1], #[trigger] rs[j]),
    ensures
        bs[k].pending() == bs[0].pending().skip(if k < bs[0].pending().len() {
            k
        } else {
            bs[0].pending().len() as int
        }),
    decreases k,
{
    if k == 0 {
        assert(bs[0].pending().skip(0) =~= bs[0].pending());
    } else {
        lemma_pending_after(bs, rs, k - 1);
        assert(next_step(bs[k - 1], bs[k], rs[k - 1]));
        let p = bs[0].pending();
        if k - 1 < p.len() {
            assert(p.skip(k - 1).drop_first() =~= p.skip(k));
        }
    }
}

/// After `k` calls on whole triples the bytes are still whole triples.
proof fn lemma_whole_after(bs: Seq<CC32xxDataBuffer>, rs: Seq<Option<u16>>, k: int)
    requires
        bs.len() == rs.len() + 1,
        0 <= k <= rs.len(),
        bs[0].whole_triples(),
        forall|j: int| 0 <= j < rs.len() ==> next_step(bs[j], bs[j + 1], #[trigger] rs[j]),
    ensures
        bs[k].whole_triples(),
    decreases k,
{
    if k > 0 {
        lemma_whole_after(bs, rs, k - 1);
        assert(next_step(bs[k - 1], bs[k], rs[k - 1]));
    }
}

/// What the state of a buffer shows: the samples pending are the held-back one, if
/// any, then those its packed bytes hold; it can step when a sample is held back or
/// its packed bytes are none or at least a triple; its bytes are whole triples exactly
/// when their number is a multiple of three, whole triples (none left among them) let the next
/// sample be taken, and a buffer with nothing pending that can step has no bytes left.
pub proof fn lemma_buffer_steps(b: CC32xxDataBuffer)
    ensures
        b.pending() == (match b.held() {
            Some(v) => seq![v],
            None => Seq::<u16>::empty(),
        }) + unpack_samples(b.packed()),
        b.can_step() == (b.held() is Some || b.packed().len() == 0 || b.packed().len() >= 3),
        b.whole_triples() == (b.packed().len() % 3 == 0),
        b.whole_triples() ==> b.can_step(),
        b.pending().len() == 0 && b.can_step() ==> b.packed().len() == 0,
        b.pending().len() >= unpack_samples(b.packed()).len(),
{
}

/// What a buffer read from `bytes` holds.
pub proof fn lemma_built_from(b: CC32xxDataBuffer, bytes: Seq<u8>)
    requires
        b.built_from(bytes),
        bytes.len() >= CC32XX_BUFFER_HEADER_LEN,
    ensures
        b.buffer_id() == le_u64(bytes, 0),
        b.packed() == bytes.skip(CC32XX_BUFFER_HEADER_LEN as int),
        b.held() is None,
        b.pending() == unpack_samples(bytes.skip(CC32XX_BUFFER_HEADER_LEN as int)),
        b.whole_triples() == ((bytes.len() - CC32XX_BUFFER_HEADER_LEN) % 3 == 0),
        b.can_step() == (bytes.len() - CC32XX_BUFFER_HEADER_LEN == 0 || bytes.len()
            - CC32XX_BUFFER_HEADER_LEN >= 3),
        b.last_time() is None,
{
    assert(b.pending() =~= unpack_samples(bytes.skip(CC32XX_BUFFER_HEADER_LEN as int)));
}

impl CC32xxDataBuffer {
    /// Number of samples still to be taken.
    fn pending_len(&self) -> (n: usize)
        ensures
            n == self.pending().len(),
    {
        let packed = bytes_len(&self.buffer);
        proof {
            lemma_unpack_len(self.packed());
        }
        let from_triples = (packed / 3) * 2;
        match self.next_value {
            Some(_) => from_triples + 1,
            None => from_triples,
        }
    }

    /// `db_create_body` can run on this buffer without panicking.
    pub fn can_write_out(
        &self,
        id: InfluxDbId,
        device: &CC32xxDevice,
        server_time_ns: u128,
        last_sync: TimeStampCount,
    ) -> (r: bool)
        requires
            device.wf(),
        ensures
            r == self.can_write_body(
                device.precision_for(id),
                device.period_for(id),
                device.header_for(id),
                server_time_ns,
                last_sync,
            ),
    {
        let prec = match device.get_precision(id) {
            Err(_) => {
                return true;
            },
            Ok(p) => p,
        };
        let period = match device.get_sample_period(id) {
            Err(_) => {
                return true;
            },
            Ok(p) => p,
        };
        let packed = bytes_len(&self.buffer);
        let ts = last_sync.timestamp as u128;
        let start = self.header.buffer_id as u128 * 100;
        let synced = last_sync.count as u128 * 100;
        if ts < server_time_ns || period == 0 || start < synced {
            return self.next_value.is_some() || packed == 0 || packed >= 3;
        }
        if packed % 3 != 0 {
            return false;
        }
        let n = self.pending_len();
        if n == 0 {
            return true;
        }
        let ghost c = buffer_clock(self.header.buffer_id, server_time_ns, last_sync, period, prec);
        let interval = (ts - server_time_ns) / period as u128;
        let first = start - synced;
        let multiplier = prec.get_multiplier() as u128;
        let a = match first.checked_add((n - 1) as u128) {
            None => {
                proof {
                    if body_fits(c, n as int) {
                        lemma_fits_parts(c, n as int);
                    }
                }
                return false;
            },
            Some(x) => x,
        };
        let a = match a.checked_add(interval) {
            None => {
                proof {
                    if body_fits(c, n as int) {
                        lemma_fits_parts(c, n as int);
                    }
                }
                return false;
            },
            Some(x) => x,
        };
        let b = match a.checked_mul(period as u128) {
            None => {
                proof {
                    if body_fits(c, n as int) {
                        lemma_fits_parts(c, n as int);
                    }
                }
                return false;
            },
            Some(x) => x,
        };
        let t = match server_time_ns.checked_add(b) {
            None => {
                proof {
                    if body_fits(c, n as int) {
                        lemma_fits_parts(c, n as int);
                    }
                }
                return false;
            },
            Some(x) => x,
        };
        match t.checked_mul(multiplier) {
            None => false,
            Some(_) => true,
        }
    }
}

/// When the last timestamp fits, so does each part of it.
proof fn lemma_fits_parts(c: SampleClock, n: int)
    requires
        n >= 1,
        c.server >= 0,
        c.first >= 0,
        c.interval >= 0,
        c.period >= 1,
        c.multiplier >= 1,
        body_fits(c, n),
    ensures
        c.first + (n - 1) + c.interval <= u128::MAX,
        (c.first + (n - 1) + c.interval) * c.period <= u128::MAX,
        c.server + (c.first + (n - 1) + c.interval) * c.period <= u128::MAX,
{
    let a = c.first + (n - 1) + c.interval;
    let x = c.server + a * c.period;
    assert(x <= x * c.multiplier) by (nonlinear_arith)
        requires
            x >= 0,
            c.multiplier >= 1,
    ;
    assert(a <= a * c.period) by (nonlinear_arith)
        requires
            a >= 0,
            c.period >= 1,
    ;
}

/// Two hexadecimal digits that print the same are the same digit.
proof fn lemma_hex_char_injective(d1: int, d2: int)
    requires
        0 <= d1 < 16,
        0 <= d2 < 16,
        hex_char(d1) == hex_char(d2),
    ensures
        d1 == d2,
{
    assert(hex_char(d1) as int == (if d1 < 10 { 48 + d1 } else { 55 + d1 }));
    assert(hex_char(d2) as int == (if d2 < 10 { 48 + d2 } else { 55 + d2 }));
}

/// Law: the text of a MAC is seventeen characters long, and different MACs get
/// different texts.
pub proof fn lemma_mac_text(m1: Seq<u8>, m2: Seq<u8>)
    requires
        m1.len() == 6,
        m2.len() == 6,
    ensures
        mac_text(m1).len() == 17,
        mac_text(m1) == mac_text(m2) ==> m1 == m2,
{
    if mac_text(m1) == mac_text(m2) {
        assert forall|i: int| 0 <= i < 6 implies m1[i] == m2[i] by {
            assert(mac_text(m1)[3 * i] == hex2(m1[i])[0]);
            assert(mac_text(m2)[3 * i] == hex2(m2[i])[0]);
            assert(mac_text(m1)[3 * i + 1] == hex2(m1[i])[1]);
            assert(mac_text(m2)[3 * i + 1] == hex2(m2[i])[1]);
            lemma_hex_char_injective(m1[i] as int / 16, m2[i] as int / 16);
            lemma_hex_char_injective(m1[i] as int % 16, m2[i] as int % 16);
        }
        assert(m1 =~= m2);
    }
}

// ----- laws of the registry -----

/// Law: a device that registers again gets the id it got the first time, and the
/// list of registered MACs does not grow.
pub proof fn lemma_reregistration_same_id(
    v0: CC32xxDeviceView,
    v1: CC32xxDeviceView,
    v2: CC32xxDeviceView,
    mac: Seq<u8>,
    d1: Option<Seq<(String, String)>>,
    d2: Option<Seq<(String, String)>>,
    id1: InfluxDbId,
    id2: InfluxDbId,
)
    requires
        v1.macs.no_duplicates(),
        registration(v0, v1, mac, d1, Ok(id1)),
        registration(v1, v2, mac, d2, Ok(id2)),
    ensures
        id2 == id1,
        v2.macs == v1.macs,
{
    let k: int = if v0.macs.contains(mac) {
        choose|i: int| 0 <= i < v0.macs.len() && #[trigger] v0.macs[i] == mac && id1.id == id_at(i)
    } else {
        v0.macs.len() as int
    };
    assert(0 <= k < v1.macs.len() && v1.macs[k] == mac && id1.id == id_at(k));
    assert(v1.macs.contains(mac));
    let i = choose|i: int| 0 <= i < v1.macs.len() && #[trigger] v1.macs[i] == mac && id2.id == id_at(i);
    assert(i == k);
}

/// Law: a device that registered `i`-th keeps its id whenever it registers again,
/// whatever happened between (no operation removes a MAC): it gets `id_at(i)`, the
/// list of MACs does not grow, and its bookkeeping starts afresh.
pub proof fn lemma_registered_keeps_id(
    v: CC32xxDeviceView,
    v2: CC32xxDeviceView,
    mac: Seq<u8>,
    devices: Option<Seq<(String, String)>>,
    id: InfluxDbId,
    i: int,
)
    requires
        v.macs.no_duplicates(),
        0 <= i < v.macs.len(),
        v.macs[i] == mac,
        registration(v, v2, mac, devices, Ok(id)),
    ensures
        id.id == id_at(i),
        v2.macs == v.macs,
        fresh_state(v2.states[id.id]),
{
    assert(v.macs.contains(mac));
    let j = choose|j: int| 0 <= j < v.macs.len() && #[trigger] v.macs[j] == mac && id.id == id_at(j);
    assert(j == i);
}

/// Law: a device whose MAC text is the key of no configured entry is refused as not
/// registered and the registry is left as it was; a listed one is accepted under the
/// name of the first entry with that key.
pub proof fn lemma_registration_needs_listed_mac(
    old: CC32xxDeviceView,
    new: CC32xxDeviceView,
    mac: Seq<u8>,
    devices: Seq<(String, String)>,
    r: Result<InfluxDbId, InfluxErrorCode>,
)
    requires
        registration(old, new, mac, Some(devices), r),
    ensures
        (forall|i: int| 0 <= i < devices.len() ==> (#[trigger] devices[i]).0@ != mac_text(mac))
            ==> r == Err::<InfluxDbId, InfluxErrorCode>(InfluxErrorCode::UniqueIdNotRegistered)
            && new == old,
        forall|i: int|
            0 <= i < devices.len() && (#[trigger] devices[i]).0@ == mac_text(mac) && (forall|j: int|
                0 <= j < i ==> (#[trigger] devices[j]).0@ != mac_text(mac)) ==> r is Ok
                && new.contexts[r->Ok_0.id] == cc32xx_context(devices[i].1@),
{
    lemma_configured_name_exact(devices, mac_text(mac));
    assert forall|i: int|
        0 <= i < devices.len() && (#[trigger] devices[i]).0@ == mac_text(mac) && (forall|j: int|
            0 <= j < i ==> (#[trigger] devices[j]).0@ != mac_text(mac)) implies r is Ok
        && new.contexts[r->Ok_0.id] == cc32xx_context(devices[i].1@) by {
        let n = configured_name(devices, mac_text(mac))->Some_0;
        let k = choose|k: int|
            0 <= k < devices.len() && (#[trigger] devices[k]).0@ == mac_text(mac) && devices[k].1@ == n
                && forall|j: int| 0 <= j < k ==> (#[trigger] devices[j]).0@ != mac_text(mac);
        if k < i {
            assert(devices[k].0@ != mac_text(mac));
        } else if i < k {
            assert(devices[i].0@ != mac_text(mac));
        }
    }
}

/// Law: once a device has registered, while fewer than `u32::MAX` devices have, its id
/// is valid, and its name, sampling period, precision and data header are those its
/// configuration and the CC32xx give; its bookkeeping starts afresh.
pub proof fn lemma_registered_device(
    v0: CC32xxDeviceView,
    v1: CC32xxDeviceView,
    mac: Seq<u8>,
    devices: Seq<(String, String)>,
    id: InfluxDbId,
)
    requires
        v0.macs.len() < u32::MAX,
        registration(v0, v1, mac, Some(devices), Ok(id)),
    ensures
        configured_name(devices, mac_text(mac)) is Some,
        spec_check_id(v1, id.id) == Ok::<bool, InfluxErrorCode>(true),
        spec_name(v1, id.id) == Ok::<Seq<char>, InfluxErrorCode>(
            configured_name(devices, mac_text(mac))->Some_0,
        ),
        spec_sample_period(v1, id.id) == Ok::<u64, InfluxErrorCode>(CC32XX_SAMPLE_RATE),
        spec_precision(v1, id.id) == Ok::<InfluxDbPrecision, InfluxErrorCode>(
            cc32xx_time_precision(),
        ),
        fresh_state(v1.states[id.id]),
{
    let k: int = if v0.macs.contains(mac) {
        choose|i: int| 0 <= i < v0.macs.len() && #[trigger] v0.macs[i] == mac && id.id == id_at(i)
    } else {
        v0.macs.len() as int
    };
    assert(0 <= k < v1.macs.len() <= u32::MAX && id.id == id_at(k));
    assert(id.id == k + 1);
    lemma_ids_count_small(v1.macs.len() as int, id.id);
}

/// Law: the devices registered `i`-th and `j`-th have different ids.
pub proof fn lemma_ids_distinct(v: CC32xxDeviceView, i: int, j: int)
    requires
        v.macs.len() <= u32::MAX,
        0 <= i < v.macs.len(),
        0 <= j < v.macs.len(),
        i != j,
    ensures
        id_at(i) != id_at(j),
        spec_check_id(v, id_at(i)) == Ok::<bool, InfluxErrorCode>(true),
{
    lemma_ids_count_small(v.macs.len() as int, id_at(i));
}

/// Law (read after write): after a device is synchronised with `last_sync`, buffer
/// timestamps are reckoned from that synchronisation.
pub proof fn lemma_offset_after_sync(
    v0: CC32xxDeviceView,
    v1: CC32xxDeviceView,
    id: u32,
    last_sync: TimeStampCount,
    current: u128,
)
    requires
        spec_sync_device(v0, id) is Ok,
        v1.macs == v0.macs,
        v1.contexts == v0.contexts,
        v1.states == v0.states.insert(id, DeviceStateView { last_sync, ..v0.states[id] }),
    ensures
        spec_offset(v1, id, current) == Ok::<int, InfluxErrorCode>(
            last_sync.timestamp + (if current >= last_sync.count * 100 {
                current - last_sync.count * 100
            } else {
                current as int
            }) * v0.contexts[id].sample_period,
        ),
{
}

/// Law: the samples of a buffer that can be written are stamped in order: a later
/// sample never gets an earlier timestamp, and a strictly later one when a sampling
/// period spans at least one unit of the precision.
pub proof fn lemma_sample_times_ordered(
    buffer_id: u64,
    server: u128,
    last_sync: TimeStampCount,
    period: u64,
    prec: InfluxDbPrecision,
    k: int,
    m: int,
)
    requires
        body_error(buffer_id, server, last_sync, period) is None,
        0 <= k <= m,
    ensures
        sample_time(buffer_clock(buffer_id, server, last_sync, period, prec), k) <= sample_time(
            buffer_clock(buffer_id, server, last_sync, period, prec),
            m,
        ),
        k < m && period * precision_multiplier(prec) >= 1000000000 ==> sample_time(
            buffer_clock(buffer_id, server, last_sync, period, prec),
            k,
        ) < sample_time(buffer_clock(buffer_id, server, last_sync, period, prec), m),
{
    let c = buffer_clock(buffer_id, server, last_sync, period, prec);
    assert(c.interval >= 0) by (nonlinear_arith)
        requires
            c.interval == (last_sync.timestamp - server) / (period as int),
            last_sync.timestamp - server >= 0,
            period > 0,
    ;
    lemma_time_monotone(c, k, m + 1);
    let x = (c.server + (c.first + k + c.interval) * c.period) * c.multiplier;
    let y = (c.server + (c.first + m + c.interval) * c.period) * c.multiplier;
    assert(x / 1000000000 <= y / 1000000000) by (nonlinear_arith)
        requires
            0 <= x <= y,
    ;
    if k < m && period * precision_multiplier(prec) >= 1000000000 {
        let a = c.first + k + c.interval;
        assert(y - x == (m - k) * (c.period * c.multiplier)) by (nonlinear_arith)
            requires
                x == (c.server + a * c.period) * c.multiplier,
                y == (c.server + (a + (m - k)) * c.period) * c.multiplier,
        ;
        assert((m - k) * (c.period * c.multiplier) >= 1000000000) by (nonlinear_arith)
            requires
                m - k >= 1,
                c.period * c.multiplier >= 1000000000,
        ;
        assert(x / 1000000000 < y / 1000000000) by (nonlinear_arith)
            requires
                0 <= x,
                y - x >= 1000000000,
        ;
    }
}

/// Law: every sample unpacked from a buffer fits in 12 bits.
pub proof fn lemma_samples_12_bit(s: Seq<u8>)
    ensures
        forall|i: int| 0 <= i < unpack_samples(s).len() ==> #[trigger] unpack_samples(s)[i] < 4096,
    decreases s.len(),
{
    if s.len() >= 3 {
        lemma_samples_12_bit(s.skip(3));
        let head = seq![sample_hi(s[0], s[1]), sample_lo(s[1], s[2])];
        assert(unpack_samples(s) == head + unpack_samples(s.skip(3)));
        assert forall|i: int| 0 <= i < unpack_samples(s).len() implies #[trigger] unpack_samples(
            s,
        )[i] < 4096 by {
            if i >= 2 {
                assert(unpack_samples(s)[i] == unpack_samples(s.skip(3))[i - 2]);
            }
        }
    }
}

} // verus!
