//! Information messages written to the database: signal strength reports and
//! errors seen for a device.
use crate::comm::influx_error::{error_name, InfluxErrorCode};
use crate::comm::message::CmdRssi;
use crate::text::{dec, dec_signed, push_char, push_decimal, push_signed};
use vstd::prelude::*;

verus! {

/// Kind of information message.
pub enum InfluxInfo {
    Error(InfoError),
    Rssi(InfoRssi),
}

/// Signal strength reported by a device.
pub struct InfoRssi {
    pub data_rssi: i16,
    pub ctrl_rssi: i16,
    pub error_pkt_num: u32,
}

impl InfoRssi {
    pub fn from_cmd(cmd_rssi: CmdRssi) -> (r: Self)
        ensures
            r.data_rssi == cmd_rssi.data_rssi,
            r.ctrl_rssi == cmd_rssi.ctrl_rssi,
            r.error_pkt_num == cmd_rssi.error_pkt_num,
    {
        InfoRssi {
            data_rssi: cmd_rssi.data_rssi,
            ctrl_rssi: cmd_rssi.ctrl_rssi,
            error_pkt_num: cmd_rssi.error_pkt_num,
        }
    }
}

/// An error seen for a device, with a text that says more.
pub struct InfoError {
    pub error: InfluxErrorCode,
    pub error_info: String,
}

/// A message that can be written as one line of the database's line protocol.
pub trait InfluxLogInfo {
    /// The line written for the device `name` at `epoch_nanos`.
    spec fn body_text(&self, name: Seq<char>, epoch_nanos: u128) -> Seq<char>;

    fn gen_body(&self, name: String, epoch_nanos: u128) -> (s: String)
        ensures
            s@ == self.body_text(name@, epoch_nanos),
    ;
}

/// `rssi,device=NAME data_rssi=D,ctrl_rssi=C,error_pkt_num=E EPOCH`.
pub open spec fn rssi_line(r: InfoRssi, name: Seq<char>, epoch_nanos: u128) -> Seq<char> {
    "rssi,device="@ + name + " data_rssi="@ + dec_signed(r.data_rssi as int) + ",ctrl_rssi="@
        + dec_signed(r.ctrl_rssi as int) + ",error_pkt_num="@ + dec(r.error_pkt_num as nat)
        + seq![' '] + dec(epoch_nanos as nat)
}

/// `error,device=NAME type_error="ERROR",info_error="INFO" EPOCH`.
pub open spec fn error_line(e: InfluxErrorCode, info: Seq<char>, name: Seq<char>, epoch_nanos: u128) -> Seq<char> {
    "error,device="@ + name + " type_error=\""@ + error_name(e) + "\",info_error=\""@ + info
        + "\" "@ + dec(epoch_nanos as nat)
}

impl InfluxLogInfo for InfoRssi {
    open spec fn body_text(&self, name: Seq<char>, epoch_nanos: u128) -> Seq<char> {
        rssi_line(*self, name, epoch_nanos)
    }

    fn gen_body(&self, name: String, epoch_nanos: u128) -> (s: String) {
        let mut s = String::new();
        s.append("rssi,device=");
        s.append(name.as_str());
        s.append(" data_rssi=");
        push_signed(&mut s, self.data_rssi as i64);
        s.append(",ctrl_rssi=");
        push_signed(&mut s, self.ctrl_rssi as i64);
        s.append(",error_pkt_num=");
        push_decimal(&mut s, self.error_pkt_num as u128);
        push_char(&mut s, ' ');
        push_decimal(&mut s, epoch_nanos);
        assert(s@ =~= rssi_line(*self, name@, epoch_nanos));
        s
    }
}

impl InfluxLogInfo for InfoError {
    open spec fn body_text(&self, name: Seq<char>, epoch_nanos: u128) -> Seq<char> {
        error_line(self.error, self.error_info@, name, epoch_nanos)
    }

    fn gen_body(&self, name: String, epoch_nanos: u128) -> (s: String) {
        let mut s = String::new();
        s.append("error,device=");
        s.append(name.as_str());
        s.append(" type_error=\"");
        let error = self.error.to_string();
        s.append(error.as_str());
        s.append("\",info_error=\"");
        s.append(self.error_info.as_str());
        s.append("\" ");
        push_decimal(&mut s, epoch_nanos);
        assert(s@ =~= error_line(self.error, self.error_info@, name@, epoch_nanos));
        s
    }
}

} // verus!
