//! The XFlash command words, one 32-bit little-endian opcode each.
use vstd::prelude::*;

verus! {

/// A command of the XFlash dialect.
#[derive(Debug, Clone, Copy, PartialEq, Eq, Structural)]
pub enum Cmd {
    Magic,
    SyncSignal,
    Unknown,
    Download,
    Upload,
    Format,
    WriteData,
    ReadData,
    FormatPartition,
    Shutdown,
    BootTo,
    DeviceCtrl,
    InitExtRam,
    SwitchUsbSpeed,
    ReadOtpZone,
    WriteOtpZone,
    WriteEfuse,
    ReadEfuse,
    NandBmtRemark,
    SramWriteTest,
    SetupEnvironment,
    SetupHwInitParams,
    SetBmtPercentage,
    SetBatteryOpt,
    SetChecksumLevel,
    SetResetKey,
    SetHostInfo,
    SetMetaBootMode,
    SetEmmcHwresetPin,
    SetGenerateGpx,
    SetRegisterValue,
    SetExternalSig,
    SetRemoteSecPolicy,
    SetAllInOneSig,
    SetRscInfo,
    SetRebootMode,
    SetCertFile,
    SetUpdateFw,
    SetUfsConfig,
    SetDynamicPartMap,
    GetEmmcInfo,
    GetNandInfo,
    GetNorInfo,
    GetUfsInfo,
    GetDaVersion,
    GetExpireData,
    GetPacketLength,
    GetRandomId,
    GetPartitionTblCata,
    GetConnectionAgent,
    GetUsbSpeed,
    GetRamInfo,
    GetChipId,
    GetOtpLockStatus,
    GetBatteryVoltage,
    GetRpmbStatus,
    GetExpireDate,
    GetDramType,
    GetDevFwInfo,
    GetHrid,
    GetErrorDetail,
    SlaEnabledStatus,
    StartDlInfo,
    EndDlInfo,
    ActLockOtpZone,
    DisableEmmcHwresetPin,
    CcOptionalDownloadAct,
    DaStorLifeCycleCheck,
    DisableSparseErase,
    UnknownCtrlCode,
    CtrlStorageTest,
    CtrlRamTest,
    DeviceCtrlReadRegister,
    ExtAck,
    ExtReadMem,
    ExtReadRegister,
    ExtWriteMem,
    ExtWriteRegister,
    ExtSetStorage,
    ExtSetRpmbKey,
    ExtProgRpmbKey,
    ExtInitRpmb,
    ExtReadRpmb,
    ExtWriteRpmb,
    ExtSej,
    ExtSetupDaCtx,
}

/// The opcode word of a command.
pub open spec fn spec_cmd_code(c: Cmd) -> u32 {
    match c {
        Cmd::Magic => 0xFEEEEEEF,
        Cmd::SyncSignal => 0x434E5953,
        Cmd::Unknown => 0x010000,
        Cmd::Download => 0x010001,
        Cmd::Upload => 0x010002,
        Cmd::Format => 0x010003,
        Cmd::WriteData => 0x010004,
        Cmd::ReadData => 0x010005,
        Cmd::FormatPartition => 0x010006,
        Cmd::Shutdown => 0x010007,
        Cmd::BootTo => 0x010008,
        Cmd::DeviceCtrl => 0x010009,
        Cmd::InitExtRam => 0x01000A,
        Cmd::SwitchUsbSpeed => 0x01000B,
        Cmd::ReadOtpZone => 0x01000C,
        Cmd::WriteOtpZone => 0x01000D,
        Cmd::WriteEfuse => 0x01000E,
        Cmd::ReadEfuse => 0x01000F,
        Cmd::NandBmtRemark => 0x010010,
        Cmd::SramWriteTest => 0x010011,
        Cmd::SetupEnvironment => 0x010100,
        Cmd::SetupHwInitParams => 0x010101,
        Cmd::SetBmtPercentage => 0x020001,
        Cmd::SetBatteryOpt => 0x020002,
        Cmd::SetChecksumLevel => 0x020003,
        Cmd::SetResetKey => 0x020004,
        Cmd::SetHostInfo => 0x020005,
        Cmd::SetMetaBootMode => 0x020006,
        Cmd::SetEmmcHwresetPin => 0x020007,
        Cmd::SetGenerateGpx => 0x020008,
        Cmd::SetRegisterValue => 0x020009,
        Cmd::SetExternalSig => 0x02000A,
        Cmd::SetRemoteSecPolicy => 0x02000B,
        Cmd::SetAllInOneSig => 0x02000C,
        Cmd::SetRscInfo => 0x02000D,
        Cmd::SetRebootMode => 0x02000E,
        Cmd::SetCertFile => 0x02000F,
        Cmd::SetUpdateFw => 0x020010,
        Cmd::SetUfsConfig => 0x020011,
        Cmd::SetDynamicPartMap => 0x020012,
        Cmd::GetEmmcInfo => 0x040001,
        Cmd::GetNandInfo => 0x040002,
        Cmd::GetNorInfo => 0x040003,
        Cmd::GetUfsInfo => 0x040004,
        Cmd::GetDaVersion => 0x040005,
        Cmd::GetExpireData => 0x040006,
        Cmd::GetPacketLength => 0x040007,
        Cmd::GetRandomId => 0x040008,
        Cmd::GetPartitionTblCata => 0x040009,
        Cmd::GetConnectionAgent => 0x04000A,
        Cmd::GetUsbSpeed => 0x04000B,
        Cmd::GetRamInfo => 0x04000C,
        Cmd::GetChipId => 0x04000D,
        Cmd::GetOtpLockStatus => 0x04000E,
        Cmd::GetBatteryVoltage => 0x04000F,
        Cmd::GetRpmbStatus => 0x040010,
        Cmd::GetExpireDate => 0x040011,
        Cmd::GetDramType => 0x040012,
        Cmd::GetDevFwInfo => 0x040013,
        Cmd::GetHrid => 0x040014,
        Cmd::GetErrorDetail => 0x040015,
        Cmd::SlaEnabledStatus => 0x040016,
        Cmd::StartDlInfo => 0x080001,
        Cmd::EndDlInfo => 0x080002,
        Cmd::ActLockOtpZone => 0x080003,
        Cmd::DisableEmmcHwresetPin => 0x080004,
        Cmd::CcOptionalDownloadAct => 0x080005,
        Cmd::DaStorLifeCycleCheck => 0x080007,
        Cmd::DisableSparseErase => 0x080008,
        Cmd::UnknownCtrlCode => 0x0E0000,
        Cmd::CtrlStorageTest => 0x0E0001,
        Cmd::CtrlRamTest => 0x0E0002,
        Cmd::DeviceCtrlReadRegister => 0x0E0003,
        Cmd::ExtAck => 0x0F0000,
        Cmd::ExtReadMem => 0x0F0001,
        Cmd::ExtReadRegister => 0x0F0002,
        Cmd::ExtWriteMem => 0x0F0003,
        Cmd::ExtWriteRegister => 0x0F0004,
        Cmd::ExtSetStorage => 0x0F0005,
        Cmd::ExtSetRpmbKey => 0x0F0006,
        Cmd::ExtProgRpmbKey => 0x0F0007,
        Cmd::ExtInitRpmb => 0x0F0008,
        Cmd::ExtReadRpmb => 0x0F0009,
        Cmd::ExtWriteRpmb => 0x0F000A,
        Cmd::ExtSej => 0x0F000B,
        Cmd::ExtSetupDaCtx => 0x0F000C,
    }
}

impl Cmd {
    /// The opcode word of this command.
    pub fn code(&self) -> (r: u32)
        ensures
            r == spec_cmd_code(*self),
    {
        match self {
            Cmd::Magic => 0xFEEEEEEF,
            Cmd::SyncSignal => 0x434E5953,
            Cmd::Unknown => 0x010000,
            Cmd::Download => 0x010001,
            Cmd::Upload => 0x010002,
            Cmd::Format => 0x010003,
            Cmd::WriteData => 0x010004,
            Cmd::ReadData => 0x010005,
            Cmd::FormatPartition => 0x010006,
            Cmd::Shutdown => 0x010007,
            Cmd::BootTo => 0x010008,
            Cmd::DeviceCtrl => 0x010009,
            Cmd::InitExtRam => 0x01000A,
            Cmd::SwitchUsbSpeed => 0x01000B,
            Cmd::ReadOtpZone => 0x01000C,
            Cmd::WriteOtpZone => 0x01000D,
            Cmd::WriteEfuse => 0x01000E,
            Cmd::ReadEfuse => 0x01000F,
            Cmd::NandBmtRemark => 0x010010,
            Cmd::SramWriteTest => 0x010011,
            Cmd::SetupEnvironment => 0x010100,
            Cmd::SetupHwInitParams => 0x010101,
            Cmd::SetBmtPercentage => 0x020001,
            Cmd::SetBatteryOpt => 0x020002,
            Cmd::SetChecksumLevel => 0x020003,
            Cmd::SetResetKey => 0x020004,
            Cmd::SetHostInfo => 0x020005,
            Cmd::SetMetaBootMode => 0x020006,
            Cmd::SetEmmcHwresetPin => 0x020007,
            Cmd::SetGenerateGpx => 0x020008,
            Cmd::SetRegisterValue => 0x020009,
            Cmd::SetExternalSig => 0x02000A,
            Cmd::SetRemoteSecPolicy => 0x02000B,
            Cmd::SetAllInOneSig => 0x02000C,
            Cmd::SetRscInfo => 0x02000D,
            Cmd::SetRebootMode => 0x02000E,
            Cmd::SetCertFile => 0x02000F,
            Cmd::SetUpdateFw => 0x020010,
            Cmd::SetUfsConfig => 0x020011,
            Cmd::SetDynamicPartMap => 0x020012,
            Cmd::GetEmmcInfo => 0x040001,
            Cmd::GetNandInfo => 0x040002,
            Cmd::GetNorInfo => 0x040003,
            Cmd::GetUfsInfo => 0x040004,
            Cmd::GetDaVersion => 0x040005,
            Cmd::GetExpireData => 0x040006,
            Cmd::GetPacketLength => 0x040007,
            Cmd::GetRandomId => 0x040008,
            Cmd::GetPartitionTblCata => 0x040009,
            Cmd::GetConnectionAgent => 0x04000A,
            Cmd::GetUsbSpeed => 0x04000B,
            Cmd::GetRamInfo => 0x04000C,
            Cmd::GetChipId => 0x04000D,
            Cmd::GetOtpLockStatus => 0x04000E,
            Cmd::GetBatteryVoltage => 0x04000F,
            Cmd::GetRpmbStatus => 0x040010,
            Cmd::GetExpireDate => 0x040011,
            Cmd::GetDramType => 0x040012,
            Cmd::GetDevFwInfo => 0x040013,
            Cmd::GetHrid => 0x040014,
            Cmd::GetErrorDetail => 0x040015,
            Cmd::SlaEnabledStatus => 0x040016,
            Cmd::StartDlInfo => 0x080001,
            Cmd::EndDlInfo => 0x080002,
            Cmd::ActLockOtpZone => 0x080003,
            Cmd::DisableEmmcHwresetPin => 0x080004,
            Cmd::CcOptionalDownloadAct => 0x080005,
            Cmd::DaStorLifeCycleCheck => 0x080007,
            Cmd::DisableSparseErase => 0x080008,
            Cmd::UnknownCtrlCode => 0x0E0000,
            Cmd::CtrlStorageTest => 0x0E0001,
            Cmd::CtrlRamTest => 0x0E0002,
            Cmd::DeviceCtrlReadRegister => 0x0E0003,
            Cmd::ExtAck => 0x0F0000,
            Cmd::ExtReadMem => 0x0F0001,
            Cmd::ExtReadRegister => 0x0F0002,
            Cmd::ExtWriteMem => 0x0F0003,
            Cmd::ExtWriteRegister => 0x0F0004,
            Cmd::ExtSetStorage => 0x0F0005,
            Cmd::ExtSetRpmbKey => 0x0F0006,
            Cmd::ExtProgRpmbKey => 0x0F0007,
            Cmd::ExtInitRpmb => 0x0F0008,
            Cmd::ExtReadRpmb => 0x0F0009,
            Cmd::ExtWriteRpmb => 0x0F000A,
            Cmd::ExtSej => 0x0F000B,
            Cmd::ExtSetupDaCtx => 0x0F000C,
        }
    }
}

} // verus!
