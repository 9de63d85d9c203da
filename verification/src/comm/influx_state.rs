//! What the server keeps about each device: traffic counters, lost packets and
//! the last time synchronisation.
use crate::clock::unix_time_nanos;
use crate::comm::influx_error::InfluxErrorCode;
use crate::comm::message::TimeStampCount;
use vstd::prelude::*;

verus! {

/// Bookkeeping of one device.
#[derive(Clone, Copy)]
pub struct DeviceState {
    total_bytes: usize,
    total_packet: usize,
    time_start: u128,
    last_msg_count: Option<usize>,
    packet_lost: usize,
    last_sync: TimeStampCount,
    count_offset: u64,
}

/// The fields of a `DeviceState`.
pub struct DeviceStateView {
    pub total_bytes: usize,
    pub total_packet: usize,
    pub time_start: u128,
    pub last_msg_count: Option<usize>,
    pub packet_lost: usize,
    pub last_sync: TimeStampCount,
    pub count_offset: u64,
}

impl View for DeviceState {
    type V = DeviceStateView;

    closed spec fn view(&self) -> DeviceStateView {
        DeviceStateView {
            total_bytes: self.total_bytes,
            total_packet: self.total_packet,
            time_start: self.time_start,
            last_msg_count: self.last_msg_count,
            packet_lost: self.packet_lost,
            last_sync: self.last_sync,
            count_offset: self.count_offset,
        }
    }
}

/// Packets lost according to a data packet numbered `count_id` after the packet
/// numbered `last` (none yet when `last` is `None`): a repeated number is a duplicate;
/// a number that goes back counts as a wrap-around, losing `count_id` packets unless it
/// restarts at zero; a jump forward loses the difference.
pub open spec fn packets_lost(last: Option<usize>, count_id: usize) -> Result<
    usize,
    InfluxErrorCode,
> {
    match last {
        None => Ok(0),
        Some(l) => {
            if l > count_id {
                if count_id == 0 {
                    Ok(0)
                } else {
                    Ok(count_id)
                }
            } else if l == count_id {
                Err(InfluxErrorCode::DataIdDuplicated)
            } else if l + 1 == count_id {
                Ok(0)
            } else {
                Ok((count_id - l) as usize)
            }
        },
    }
}

/// Counting one more packet of `len` bytes numbered `count_id` fits the counters (a
/// duplicate is not counted, so it always fits).
pub open spec fn counters_fit(v: DeviceStateView, len: usize, count_id: usize) -> bool {
    packets_lost(v.last_msg_count, count_id) matches Ok(lost) ==> {
        &&& v.total_packet < usize::MAX
        &&& v.total_bytes + len <= usize::MAX
        &&& v.packet_lost + lost <= usize::MAX
    }
}

/// The state after counting a packet of `len` bytes numbered `count_id` that lost `lost`.
pub open spec fn counted(v: DeviceStateView, len: usize, count_id: usize, lost: usize) -> DeviceStateView {
    DeviceStateView {
        total_bytes: (v.total_bytes + len) as usize,
        total_packet: (v.total_packet + 1) as usize,
        last_msg_count: Some(count_id),
        packet_lost: (v.packet_lost + lost) as usize,
        ..v
    }
}

impl DeviceState {
    /// Nothing ever moves the count offset from zero.
    #[verifier::type_invariant]
    spec fn count_offset_is_zero(self) -> bool {
        self.count_offset == 0
    }

    /// A device with nothing received yet, started and synchronised now.
    pub fn new() -> (r: Self)
        ensures
            r@.total_bytes == 0,
            r@.total_packet == 0,
            r@.last_msg_count is None,
            r@.packet_lost == 0,
            r@.last_sync.count == 0,
            r@.count_offset == 0,
    {
        DeviceState::new_at(unix_time_nanos())
    }

    /// A device with nothing received yet, started and synchronised at `now_ns`
    /// (nanoseconds since the epoch).
    pub fn new_at(now_ns: u128) -> (r: Self)
        ensures
            r@ == (DeviceStateView {
                total_bytes: 0,
                total_packet: 0,
                time_start: now_ns,
                last_msg_count: None,
                packet_lost: 0,
                last_sync: TimeStampCount { timestamp: (now_ns % 0x1_0000_0000_0000_0000) as u64, count: 0 },
                count_offset: 0,
            }),
    {
        Self {
            total_bytes: 0,
            total_packet: 0,
            time_start: now_ns,
            last_msg_count: None,
            packet_lost: 0,
            last_sync: TimeStampCount::at(now_ns),
            count_offset: 0,
        }
    }

    /// Counts a data packet of `len` bytes numbered `count_id` and returns how many
    /// packets it shows lost; a duplicate is refused and changes nothing.
    pub fn add_data_packet(&mut self, len: usize, count_id: usize) -> (r: Result<
        usize,
        InfluxErrorCode,
    >)
        requires
            counters_fit(old(self)@, len, count_id),
        ensures
            r == packets_lost(old(self)@.last_msg_count, count_id),
            r matches Ok(lost) ==> final(self)@ == counted(old(self)@, len, count_id, lost),
            r is Err ==> final(self)@ == old(self)@,
    {
        proof {
            use_type_invariant(&*self);
        }
        let mut current_data_lost: usize = 0;
        match self.last_msg_count {
            Some(last_count) => {
                if last_count > count_id {
                    if count_id == 0 {
                        current_data_lost = 0;
                    } else {
                        current_data_lost = count_id;
                        self.packet_lost += current_data_lost;
                    }
                } else if last_count == count_id {
                    return Err(InfluxErrorCode::DataIdDuplicated);
                } else if last_count + 1 == count_id {
                    current_data_lost = 0;
                } else {
                    current_data_lost = count_id - last_count;
                    self.packet_lost += current_data_lost;
                }
            },
            None => {},
        }
        self.total_packet += 1;
        self.total_bytes += len;
        self.last_msg_count = Some(count_id);
        Ok(current_data_lost)
    }

    /// Counting a packet of `len` bytes numbered `count_id` fits the counters.
    pub fn can_count(&self, len: usize, count_id: usize) -> (r: bool)
        ensures
            r == counters_fit(self@, len, count_id),
    {
        let lost: usize = match self.last_msg_count {
            None => 0,
            Some(l) => {
                if l > count_id {
                    count_id
                } else if l == count_id {
                    return true;
                } else if l + 1 == count_id {
                    0
                } else {
                    count_id - l
                }
            },
        };
        self.total_packet < usize::MAX && len <= usize::MAX - self.total_bytes && lost <= usize::MAX
            - self.packet_lost
    }

    /// Packets counted so far.
    pub fn get_total_packet(&self) -> (r: usize)
        ensures
            r == self@.total_packet,
    {
        self.total_packet
    }

    /// Packets seen lost so far.
    pub fn get_packet_lost(&self) -> (r: usize)
        ensures
            r == self@.packet_lost,
    {
        self.packet_lost
    }

    /// Bytes of the packets counted so far.
    pub fn get_total_bytes(&self) -> (r: usize)
        ensures
            r == self@.total_bytes,
    {
        self.total_bytes
    }

    /// When the bookkeeping started, in nanoseconds since the epoch.
    pub fn get_time_start(&self) -> (r: u128)
        ensures
            r == self@.time_start,
    {
        self.time_start
    }

    /// Records the device's last synchronisation; nothing else changes.
    pub fn sync_state(&mut self, last_sync: TimeStampCount, server_time_ns: u128, sample_time: u64) -> (r: Result<
        (),
        InfluxErrorCode,
    >)
        ensures
            r is Ok,
            final(self)@ == (DeviceStateView { last_sync, ..old(self)@ }),
    {
        proof {
            use_type_invariant(&*self);
        }
        self.last_sync = last_sync;
        Ok(())
    }

    pub fn get_count_offset(&self, current_buffer_id: u64) -> (r: u64)
        ensures
            r == self@.count_offset,
            r == 0,
    {
        proof {
            use_type_invariant(self);
        }
        self.count_offset
    }

    pub fn get_last_sync(&self) -> (r: TimeStampCount)
        ensures
            r == self@.last_sync,
    {
        self.last_sync
    }

    /// Buffer counts elapsed between the server time and the last synchronisation,
    /// in units of 100 samples, less the synchronised count.
    fn calculate_count_offset(&self, sample_time: u64, server_time_ns: u128) -> (r: Result<
        u64,
        InfluxErrorCode,
    >)
        requires
            server_time_ns < self@.last_sync.timestamp ==> sample_time > 0,
        ensures
            ({
                let ts = self@.last_sync.timestamp as int;
                let diff = (ts - server_time_ns) / (sample_time * 100);
                if server_time_ns >= ts {
                    r == Err::<u64, InfluxErrorCode>(InfluxErrorCode::TimeError)
                } else if diff < self@.last_sync.count {
                    r == Err::<u64, InfluxErrorCode>(InfluxErrorCode::TimeError)
                } else {
                    r == Ok::<u64, InfluxErrorCode>((diff - self@.last_sync.count) as u64)
                }
            }),
    {
        if server_time_ns >= self.last_sync.timestamp as u128 {
            return Err(InfluxErrorCode::TimeError);
        }
        let elapsed = self.last_sync.timestamp as u128 - server_time_ns;
        let unit = sample_time as u128 * 100;
        let q = elapsed / unit;
        assert(q <= elapsed) by (nonlinear_arith)
            requires
                unit >= 1,
                q == elapsed / unit,
        ;
        let diff_count = q as u64;
        if diff_count < self.last_sync.count {
            return Err(InfluxErrorCode::TimeError);
        }
        Ok(diff_count - self.last_sync.count)
    }
}

/// Law: a packet number that was just counted is refused as a duplicate when it
/// comes again.
pub proof fn lemma_repeat_is_duplicate(v: DeviceStateView, len: usize, count_id: usize, lost: usize)
    ensures
        packets_lost(counted(v, len, count_id, lost).last_msg_count, count_id) == Err::<
            usize,
            InfluxErrorCode,
        >(InfluxErrorCode::DataIdDuplicated),
{
}

/// Law: the packet numbered right after the last one counted shows nothing lost.
pub proof fn lemma_next_loses_nothing(v: DeviceStateView, len: usize, count_id: usize, lost: usize)
    requires
        count_id < usize::MAX,
    ensures
        packets_lost(counted(v, len, count_id, lost).last_msg_count, (count_id + 1) as usize)
            == Ok::<usize, InfluxErrorCode>(0),
{
}

/// Law: counting a packet adds one packet and its bytes, and adds to the packets lost
/// exactly what it reports lost.
pub proof fn lemma_counting_adds(v: DeviceStateView, len: usize, count_id: usize, lost: usize)
    requires
        counters_fit(v, len, count_id),
        packets_lost(v.last_msg_count, count_id) == Ok::<usize, InfluxErrorCode>(lost),
    ensures
        counted(v, len, count_id, lost).total_packet == v.total_packet + 1,
        counted(v, len, count_id, lost).total_bytes == v.total_bytes + len,
        counted(v, len, count_id, lost).packet_lost == v.packet_lost + lost,
        counted(v, len, count_id, lost).last_sync == v.last_sync,
{
}

/// Law: a packet is refused exactly when its number repeats the last one counted, and
/// then as a duplicate.
pub proof fn lemma_refused_iff_repeat(last: Option<usize>, count_id: usize)
    ensures
        packets_lost(last, count_id) is Err <==> last == Some(count_id),
        packets_lost(last, count_id) is Err ==> packets_lost(last, count_id)->Err_0
            == InfluxErrorCode::DataIdDuplicated,
{
}

/// Law: the count offset never changes: counting a packet and synchronising keep it
/// (a new device starts with zero, as `DeviceState::new_at` states).
pub proof fn lemma_count_offset_kept(
    v: DeviceStateView,
    len: usize,
    count_id: usize,
    lost: usize,
    last_sync: TimeStampCount,
)
    ensures
        counted(v, len, count_id, lost).count_offset == v.count_offset,
        (DeviceStateView { last_sync, ..v }).count_offset == v.count_offset,
{
}

} // verus!
