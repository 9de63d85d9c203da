use vstd::prelude::*;

verus! {

/// Every failure the server reports, in decoding, bookkeeping or storage.
#[derive(Debug, PartialEq, Eq, Structural, Copy, Clone)]
pub enum InfluxErrorCode {
    HeaderLengthIncorrect,
    DecodeHeaderError,
    NumBuffersFrac,
    IncorrectNumBuffers,
    DecodeHeaderDataError,
    DataIdDuplicated,
    DecodeHeaderCmdError,
    CmdIncorrectLength,
    CmdTypeDoesntMatch,
    CmdTypeNotImplemented,
    RespCmdNotImplemented,
    EncodeCmdError,
    RxLockFailed,
    IdDuplicated,
    IdNotValid,
    IdDbContext,
    TimeError,
    NotPreviousSync,
    WriteLockFailed,
    ConfigFileNotFound,
    UniqueIdNotRegistered,
    TimeBeforeServerTime,
    SamplePeriodNotDiv,
    TimeBeforeLastSync,
    NotValidConfigFile,
    ConfigPathDoesntExits,
}

/// The name of an error, as it prints.
pub open spec fn error_name(e: InfluxErrorCode) -> Seq<char> {
    match e {
        InfluxErrorCode::HeaderLengthIncorrect => "HeaderLengthIncorrect"@,
        InfluxErrorCode::DecodeHeaderError => "DecodeHeaderError"@,
        InfluxErrorCode::NumBuffersFrac => "NumBuffersFrac"@,
        InfluxErrorCode::IncorrectNumBuffers => "IncorrectNumBuffers"@,
        InfluxErrorCode::DecodeHeaderDataError => "DecodeHeaderDataError"@,
        InfluxErrorCode::DataIdDuplicated => "DataIdDuplicated"@,
        InfluxErrorCode::DecodeHeaderCmdError => "DecodeHeaderCmdError"@,
        InfluxErrorCode::CmdIncorrectLength => "CmdIncorrectLength"@,
        InfluxErrorCode::CmdTypeDoesntMatch => "CmdTypeDoesntMatch"@,
        InfluxErrorCode::CmdTypeNotImplemented => "CmdTypeNotImplemented"@,
        InfluxErrorCode::RespCmdNotImplemented => "RespCmdNotImplemented"@,
        InfluxErrorCode::EncodeCmdError => "EncodeCmdError"@,
        InfluxErrorCode::RxLockFailed => "RxLockFailed"@,
        InfluxErrorCode::IdDuplicated => "IdDuplicated"@,
        InfluxErrorCode::IdNotValid => "IdNotValid"@,
        InfluxErrorCode::IdDbContext => "IdDbContext"@,
        InfluxErrorCode::TimeError => "TimeError"@,
        InfluxErrorCode::NotPreviousSync => "NotPreviousSync"@,
        InfluxErrorCode::WriteLockFailed => "WriteLockFailed"@,
        InfluxErrorCode::ConfigFileNotFound => "ConfigFileNotFound"@,
        InfluxErrorCode::UniqueIdNotRegistered => "UniqueIdNotRegistered"@,
        InfluxErrorCode::TimeBeforeServerTime => "TimeBeforeServerTime"@,
        InfluxErrorCode::SamplePeriodNotDiv => "SamplePeriodNotDiv"@,
        InfluxErrorCode::TimeBeforeLastSync => "TimeBeforeLastSync"@,
        InfluxErrorCode::NotValidConfigFile => "NotValidConfigFile"@,
        InfluxErrorCode::ConfigPathDoesntExits => "ConfigPathDoesntExits"@,
    }
}

impl InfluxErrorCode {
    /// The name of the error.
    pub fn to_string(&self) -> (s: String)
        ensures
            s@ == error_name(*self),
    {
        let name: &str = match self {
            InfluxErrorCode::HeaderLengthIncorrect => "HeaderLengthIncorrect",
            InfluxErrorCode::DecodeHeaderError => "DecodeHeaderError",
            InfluxErrorCode::NumBuffersFrac => "NumBuffersFrac",
            InfluxErrorCode::IncorrectNumBuffers => "IncorrectNumBuffers",
            InfluxErrorCode::DecodeHeaderDataError => "DecodeHeaderDataError",
            InfluxErrorCode::DataIdDuplicated => "DataIdDuplicated",
            InfluxErrorCode::DecodeHeaderCmdError => "DecodeHeaderCmdError",
            InfluxErrorCode::CmdIncorrectLength => "CmdIncorrectLength",
            InfluxErrorCode::CmdTypeDoesntMatch => "CmdTypeDoesntMatch",
            InfluxErrorCode::CmdTypeNotImplemented => "CmdTypeNotImplemented",
            InfluxErrorCode::RespCmdNotImplemented => "RespCmdNotImplemented",
            InfluxErrorCode::EncodeCmdError => "EncodeCmdError",
            InfluxErrorCode::RxLockFailed => "RxLockFailed",
            InfluxErrorCode::IdDuplicated => "IdDuplicated",
            InfluxErrorCode::IdNotValid => "IdNotValid",
            InfluxErrorCode::IdDbContext => "IdDbContext",
            InfluxErrorCode::TimeError => "TimeError",
            InfluxErrorCode::NotPreviousSync => "NotPreviousSync",
            InfluxErrorCode::WriteLockFailed => "WriteLockFailed",
            InfluxErrorCode::ConfigFileNotFound => "ConfigFileNotFound",
            InfluxErrorCode::UniqueIdNotRegistered => "UniqueIdNotRegistered",
            InfluxErrorCode::TimeBeforeServerTime => "TimeBeforeServerTime",
            InfluxErrorCode::SamplePeriodNotDiv => "SamplePeriodNotDiv",
            InfluxErrorCode::TimeBeforeLastSync => "TimeBeforeLastSync",
            InfluxErrorCode::NotValidConfigFile => "NotValidConfigFile",
            InfluxErrorCode::ConfigPathDoesntExits => "ConfigPathDoesntExits",
        };
        String::from_str(name)
    }
}

} // verus!
