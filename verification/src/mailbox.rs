use vstd::prelude::*;

verus! {

use vstd::std_specs::convert::FromSpec;

/// Mailbox channels; a message carries its channel in its low four bits.
#[derive(Copy, Clone, PartialEq, Eq, Debug, Structural)]
pub enum MailboxChannel {
    PowerManagement,
    Framebuffer,
    VirtualUART,
    VCHIQ,
    LEDs,
    Buttons,
    TouchScreen,
    Count,
    PropertyARMToVC,
    PropertyVCToARM,
    Reserved10,
    Reserved11,
    Reserved12,
    Reserved13,
    Reserved14,
    Reserved15,
}

/// The number of each channel.
pub open spec fn channel_code(c: MailboxChannel) -> u32 {
    match c {
        MailboxChannel::PowerManagement => 0,
        MailboxChannel::Framebuffer => 1,
        MailboxChannel::VirtualUART => 2,
        MailboxChannel::VCHIQ => 3,
        MailboxChannel::LEDs => 4,
        MailboxChannel::Buttons => 5,
        MailboxChannel::TouchScreen => 6,
        MailboxChannel::Count => 7,
        MailboxChannel::PropertyARMToVC => 8,
        MailboxChannel::PropertyVCToARM => 9,
        MailboxChannel::Reserved10 => 10,
        MailboxChannel::Reserved11 => 11,
        MailboxChannel::Reserved12 => 12,
        MailboxChannel::Reserved13 => 13,
        MailboxChannel::Reserved14 => 14,
        MailboxChannel::Reserved15 => 15,
    }
}

/// The channel numbered `n`, for `n < 16`.
pub open spec fn channel_of_nibble(n: u32) -> MailboxChannel {
    match n {
        0 => MailboxChannel::PowerManagement,
        1 => MailboxChannel::Framebuffer,
        2 => MailboxChannel::VirtualUART,
        3 => MailboxChannel::VCHIQ,
        4 => MailboxChannel::LEDs,
        5 => MailboxChannel::Buttons,
        6 => MailboxChannel::TouchScreen,
        7 => MailboxChannel::Count,
        8 => MailboxChannel::PropertyARMToVC,
        9 => MailboxChannel::PropertyVCToARM,
        10 => MailboxChannel::Reserved10,
        11 => MailboxChannel::Reserved11,
        12 => MailboxChannel::Reserved12,
        13 => MailboxChannel::Reserved13,
        14 => MailboxChannel::Reserved14,
        _ => MailboxChannel::Reserved15,
    }
}

impl MailboxChannel {
    pub fn code(&self) -> (n: u32)
        ensures
            n == channel_code(*self),
    {
        match self {
            MailboxChannel::PowerManagement => 0,
            MailboxChannel::Framebuffer => 1,
            MailboxChannel::VirtualUART => 2,
            MailboxChannel::VCHIQ => 3,
            MailboxChannel::LEDs => 4,
            MailboxChannel::Buttons => 5,
            MailboxChannel::TouchScreen => 6,
            MailboxChannel::Count => 7,
            MailboxChannel::PropertyARMToVC => 8,
            MailboxChannel::PropertyVCToARM => 9,
            MailboxChannel::Reserved10 => 10,
            MailboxChannel::Reserved11 => 11,
            MailboxChannel::Reserved12 => 12,
            MailboxChannel::Reserved13 => 13,
            MailboxChannel::Reserved14 => 14,
            MailboxChannel::Reserved15 => 15,
        }
    }
}

impl From<u32> for MailboxChannel {
    /// The channel named by the low four bits of `data`.
    fn from(data: u32) -> (c: MailboxChannel) {
        match data & 0xf {
            0 => MailboxChannel::PowerManagement,
            1 => MailboxChannel::Framebuffer,
            2 => MailboxChannel::VirtualUART,
            3 => MailboxChannel::VCHIQ,
            4 => MailboxChannel::LEDs,
            5 => MailboxChannel::Buttons,
            6 => MailboxChannel::TouchScreen,
            7 => MailboxChannel::Count,
            8 => MailboxChannel::PropertyARMToVC,
            9 => MailboxChannel::PropertyVCToARM,
            10 => MailboxChannel::Reserved10,
            11 => MailboxChannel::Reserved11,
            12 => MailboxChannel::Reserved12,
            13 => MailboxChannel::Reserved13,
            14 => MailboxChannel::Reserved14,
            _ => MailboxChannel::Reserved15,
        }
    }
}

impl vstd::std_specs::convert::FromSpecImpl<u32> for MailboxChannel {
    open spec fn obeys_from_spec() -> bool {
        true
    }

    open spec fn from_spec(data: u32) -> MailboxChannel {
        channel_of_nibble(data & 0xf)
    }
}

/// The number of a channel names that channel again.
pub proof fn lemma_channel_code_round_trip(c: MailboxChannel)
    ensures
        MailboxChannel::from_spec(channel_code(c)) == c,
        channel_code(c) < 16,
{
    let n = channel_code(c);
    assert(n < 16 ==> n & 0xf == n) by (bit_vector);
}

/// The channel read out of a word is the one numbered by its low four bits.
pub proof fn lemma_channel_of_word(data: u32)
    ensures
        channel_code(MailboxChannel::from_spec(data)) == data & 0xf,
{
    assert(data & 0xf < 16) by (bit_vector);
}

/// Request and response codes of a property buffer.
#[derive(Copy, Clone, PartialEq, Eq, Debug, Structural)]
pub enum MailboxBufStatus {
    ProcessRequest,
    RequestSuccessful,
    ErrorParsingRequest,
}

pub open spec fn buf_status_code(s: MailboxBufStatus) -> u32 {
    match s {
        MailboxBufStatus::ProcessRequest => 0x0000_0000,
        MailboxBufStatus::RequestSuccessful => 0x8000_0000,
        MailboxBufStatus::ErrorParsingRequest => 0x8000_0001,
    }
}

/// The three status words that a property buffer can hold.
pub open spec fn is_buf_status_code(status: u32) -> bool {
    status == 0x0000_0000 || status == 0x8000_0000 || status == 0x8000_0001
}

/// The status words tell the three apart: the request carries zero, and both
/// responses have bit 31 set.
pub proof fn lemma_buf_status_codes(a: MailboxBufStatus, b: MailboxBufStatus)
    ensures
        buf_status_code(a) == buf_status_code(b) ==> a == b,
        buf_status_code(a) == 0 <==> a == MailboxBufStatus::ProcessRequest,
        a != MailboxBufStatus::ProcessRequest ==> buf_status_code(a) >= 0x8000_0000,
        is_buf_status_code(buf_status_code(a)),
{
}

impl MailboxBufStatus {
    pub fn code(&self) -> (n: u32)
        ensures
            n == buf_status_code(*self),
    {
        match self {
            MailboxBufStatus::ProcessRequest => 0x0000_0000,
            MailboxBufStatus::RequestSuccessful => 0x8000_0000,
            MailboxBufStatus::ErrorParsingRequest => 0x8000_0001,
        }
    }

    /// The status with the given code; the other words are no status at all.
    pub fn try_from_code(status: u32) -> (r: Option<MailboxBufStatus>)
        ensures
            r is Some <==> is_buf_status_code(status),
            r matches Some(s) ==> buf_status_code(s) == status,
    {
        if status == 0x0000_0000 {
            Some(MailboxBufStatus::ProcessRequest)
        } else if status == 0x8000_0000 {
            Some(MailboxBufStatus::RequestSuccessful)
        } else if status == 0x8000_0001 {
            Some(MailboxBufStatus::ErrorParsingRequest)
        } else {
            None
        }
    }

    /// The status with the given code, which must be one of the three.
    pub fn from_code(status: u32) -> (s: MailboxBufStatus)
        requires
            is_buf_status_code(status),
        ensures
            buf_status_code(s) == status,
    {
        if status == 0x0000_0000 {
            MailboxBufStatus::ProcessRequest
        } else if status == 0x8000_0000 {
            MailboxBufStatus::RequestSuccessful
        } else {
            MailboxBufStatus::ErrorParsingRequest
        }
    }
}

/// Property tags of the mailbox property interface.
#[derive(Copy, Clone, PartialEq, Eq, Debug, Structural)]
pub enum MailboxTag {
    EndTag,
    GetFirmwareRevision,
    GetBoardModel,
    GetBoardRevision,
    GetBoardMacAddress,
    GetBoardSerial,
    GetARMMemory,
    GetVCMemory,
    GetClocks,
    GetCommandLine,
    GetDMAChannels,
    GetPowerState,
    GetTiming,
    SetPowerState,
    GetClockState,
    SetClockState,
    GetClockRate,
    SetClockRate,
    GetMaxClockRate,
    GetMinClockRate,
    GetTurbo,
    SetTurbo,
    GetVoltage,
    SetVoltage,
    GetMaxVoltage,
    GetMinVoltage,
    GetTemperature,
    GetMaxTemperature,
    AllocateMemory,
    LockMemory,
    UnlockMemory,
    ReleaseMemory,
    ExecuteCode,
    GetDispmanxResourceMemHandle,
    AllocateBuffer,
    ReleaseBuffer,
    BlankScreen,
    GetPhysicalWidthHeight,
    TestPhysicalWidthHeight,
    SetPhysicalWidthHeight,
    GetVirtualWidthHeight,
    TestVirtualWidthHeight,
    SetVirtualWidthHeight,
    GetDepth,
    TestDepth,
    SetDepth,
    GetPixelOrder,
    TestPixelOrder,
    SetPixelOrder,
    GetAlphaMode,
    TestAlphaMode,
    SetAlphaMode,
    GetPitch,
    GetVirtualOffset,
    TestVirtualOffset,
    SetVirtualOffset,
    GetOverscan,
    TestOverscan,
    SetOverscan,
    GetPalette,
    TestPalette,
    SetPalette,
    SetCursorInfo,
    SetCursorState,
}

/// The tag identifier that the firmware reads for each tag.
pub open spec fn tag_code(t: MailboxTag) -> u32 {
    match t {
        MailboxTag::EndTag => 0x0000_0000,
        MailboxTag::GetFirmwareRevision => 0x0000_0001,
        MailboxTag::GetBoardModel => 0x0001_0001,
        MailboxTag::GetBoardRevision => 0x0001_0002,
        MailboxTag::GetBoardMacAddress => 0x0001_0003,
        MailboxTag::GetBoardSerial => 0x0001_0004,
        MailboxTag::GetARMMemory => 0x0001_0005,
        MailboxTag::GetVCMemory => 0x0001_0006,
        MailboxTag::GetClocks => 0x0001_0007,
        MailboxTag::GetCommandLine => 0x0005_0001,
        MailboxTag::GetDMAChannels => 0x0006_0001,
        MailboxTag::GetPowerState => 0x0002_0001,
        MailboxTag::GetTiming => 0x0002_0002,
        MailboxTag::SetPowerState => 0x0002_8001,
        MailboxTag::GetClockState => 0x0003_0001,
        MailboxTag::SetClockState => 0x0003_8001,
        MailboxTag::GetClockRate => 0x0003_0002,
        MailboxTag::SetClockRate => 0x0003_8002,
        MailboxTag::GetMaxClockRate => 0x0003_0004,
        MailboxTag::GetMinClockRate => 0x0003_0007,
        MailboxTag::GetTurbo => 0x0003_0009,
        MailboxTag::SetTurbo => 0x0003_8009,
        MailboxTag::GetVoltage => 0x0003_0003,
        MailboxTag::SetVoltage => 0x0003_8003,
        MailboxTag::GetMaxVoltage => 0x0003_0005,
        MailboxTag::GetMinVoltage => 0x0003_0008,
        MailboxTag::GetTemperature => 0x0003_0006,
        MailboxTag::GetMaxTemperature => 0x0003_000a,
        MailboxTag::AllocateMemory => 0x0003_000c,
        MailboxTag::LockMemory => 0x0003_000d,
        MailboxTag::UnlockMemory => 0x0003_000e,
        MailboxTag::ReleaseMemory => 0x0003_000f,
        MailboxTag::ExecuteCode => 0x0003_0010,
        MailboxTag::GetDispmanxResourceMemHandle => 0x0003_0014,
        MailboxTag::AllocateBuffer => 0x0004_0001,
        MailboxTag::ReleaseBuffer => 0x0004_8001,
        MailboxTag::BlankScreen => 0x0004_0002,
        MailboxTag::GetPhysicalWidthHeight => 0x0004_0003,
        MailboxTag::TestPhysicalWidthHeight => 0x0004_4003,
        MailboxTag::SetPhysicalWidthHeight => 0x0004_8003,
        MailboxTag::GetVirtualWidthHeight => 0x0004_0004,
        MailboxTag::TestVirtualWidthHeight => 0x0004_4004,
        MailboxTag::SetVirtualWidthHeight => 0x0004_8004,
        MailboxTag::GetDepth => 0x0004_0005,
        MailboxTag::TestDepth => 0x0004_4005,
        MailboxTag::SetDepth => 0x0004_8005,
        MailboxTag::GetPixelOrder => 0x0004_0006,
        MailboxTag::TestPixelOrder => 0x0004_4006,
        MailboxTag::SetPixelOrder => 0x0004_8006,
        MailboxTag::GetAlphaMode => 0x0004_0007,
        MailboxTag::TestAlphaMode => 0x0004_4007,
        MailboxTag::SetAlphaMode => 0x0004_8007,
        MailboxTag::GetPitch => 0x0004_0008,
        MailboxTag::GetVirtualOffset => 0x0004_0009,
        MailboxTag::TestVirtualOffset => 0x0004_4009,
        MailboxTag::SetVirtualOffset => 0x0004_8009,
        MailboxTag::GetOverscan => 0x0004_000a,
        MailboxTag::TestOverscan => 0x0004_400a,
        MailboxTag::SetOverscan => 0x0004_800a,
        MailboxTag::GetPalette => 0x0004_000b,
        MailboxTag::TestPalette => 0x0004_400b,
        MailboxTag::SetPalette => 0x0004_800b,
        MailboxTag::SetCursorInfo => 0x0000_8010,
        MailboxTag::SetCursorState => 0x0000_8011,
    }
}

/// The part of the firmware a tag addresses: 0 the VideoCore firmware itself and
/// the hardware cursor, 1 the board and its memory split, 2 power, 3 clocks, voltages, temperatures and
/// GPU memory, 4 the framebuffer, 5 the command line, 6 shared resources.
pub open spec fn tag_group(t: MailboxTag) -> u32 {
    match t {
        MailboxTag::EndTag
        | MailboxTag::GetFirmwareRevision
        | MailboxTag::SetCursorInfo
        | MailboxTag::SetCursorState
        => 0,
        MailboxTag::GetBoardModel
        | MailboxTag::GetBoardRevision
        | MailboxTag::GetBoardMacAddress
        | MailboxTag::GetBoardSerial
        | MailboxTag::GetARMMemory
        | MailboxTag::GetVCMemory
        | MailboxTag::GetClocks
        => 1,
        MailboxTag::GetPowerState
        | MailboxTag::GetTiming
        | MailboxTag::SetPowerState
        => 2,
        MailboxTag::GetClockState
        | MailboxTag::SetClockState
        | MailboxTag::GetClockRate
        | MailboxTag::SetClockRate
        | MailboxTag::GetMaxClockRate
        | MailboxTag::GetMinClockRate
        | MailboxTag::GetTurbo
        | MailboxTag::SetTurbo
        | MailboxTag::GetVoltage
        | MailboxTag::SetVoltage
        | MailboxTag::GetMaxVoltage
        | MailboxTag::GetMinVoltage
        | MailboxTag::GetTemperature
        | MailboxTag::GetMaxTemperature
        | MailboxTag::AllocateMemory
        | MailboxTag::LockMemory
        | MailboxTag::UnlockMemory
        | MailboxTag::ReleaseMemory
        | MailboxTag::ExecuteCode
        | MailboxTag::GetDispmanxResourceMemHandle
        => 3,
        MailboxTag::AllocateBuffer
        | MailboxTag::ReleaseBuffer
        | MailboxTag::BlankScreen
        | MailboxTag::GetPhysicalWidthHeight
        | MailboxTag::TestPhysicalWidthHeight
        | MailboxTag::SetPhysicalWidthHeight
        | MailboxTag::GetVirtualWidthHeight
        | MailboxTag::TestVirtualWidthHeight
        | MailboxTag::SetVirtualWidthHeight
        | MailboxTag::GetDepth
        | MailboxTag::TestDepth
        | MailboxTag::SetDepth
        | MailboxTag::GetPixelOrder
        | MailboxTag::TestPixelOrder
        | MailboxTag::SetPixelOrder
        | MailboxTag::GetAlphaMode
        | MailboxTag::TestAlphaMode
        | MailboxTag::SetAlphaMode
        | MailboxTag::GetPitch
        | MailboxTag::GetVirtualOffset
        | MailboxTag::TestVirtualOffset
        | MailboxTag::SetVirtualOffset
        | MailboxTag::GetOverscan
        | MailboxTag::TestOverscan
        | MailboxTag::SetOverscan
        | MailboxTag::GetPalette
        | MailboxTag::TestPalette
        | MailboxTag::SetPalette
        => 4,
        MailboxTag::GetCommandLine
        => 5,
        MailboxTag::GetDMAChannels
        => 6,
    }
}

/// The upper half of a tag's identifier names the part of the firmware the tag
/// addresses.
pub proof fn lemma_tag_code_group(t: MailboxTag)
    ensures
        tag_code(t) / 0x1_0000 == tag_group(t),
{
}

/// The tag that the firmware identifies by `n`, if any.
spec fn tag_with_code(n: u32) -> Option<MailboxTag> {
    if n == 0x0000_0000 {
        Some(MailboxTag::EndTag)
    } else if n == 0x0000_0001 {
        Some(MailboxTag::GetFirmwareRevision)
    } else if n == 0x0001_0001 {
        Some(MailboxTag::GetBoardModel)
    } else if n == 0x0001_0002 {
        Some(MailboxTag::GetBoardRevision)
    } else if n == 0x0001_0003 {
        Some(MailboxTag::GetBoardMacAddress)
    } else if n == 0x0001_0004 {
        Some(MailboxTag::GetBoardSerial)
    } else if n == 0x0001_0005 {
        Some(MailboxTag::GetARMMemory)
    } else if n == 0x0001_0006 {
        Some(MailboxTag::GetVCMemory)
    } else if n == 0x0001_0007 {
        Some(MailboxTag::GetClocks)
    } else if n == 0x0005_0001 {
        Some(MailboxTag::GetCommandLine)
    } else if n == 0x0006_0001 {
        Some(MailboxTag::GetDMAChannels)
    } else if n == 0x0002_0001 {
        Some(MailboxTag::GetPowerState)
    } else if n == 0x0002_0002 {
        Some(MailboxTag::GetTiming)
    } else if n == 0x0002_8001 {
        Some(MailboxTag::SetPowerState)
    } else if n == 0x0003_0001 {
        Some(MailboxTag::GetClockState)
    } else if n == 0x0003_8001 {
        Some(MailboxTag::SetClockState)
    } else if n == 0x0003_0002 {
        Some(MailboxTag::GetClockRate)
    } else if n == 0x0003_8002 {
        Some(MailboxTag::SetClockRate)
    } else if n == 0x0003_0004 {
        Some(MailboxTag::GetMaxClockRate)
    } else if n == 0x0003_0007 {
        Some(MailboxTag::GetMinClockRate)
    } else if n == 0x0003_0009 {
        Some(MailboxTag::GetTurbo)
    } else if n == 0x0003_8009 {
        Some(MailboxTag::SetTurbo)
    } else if n == 0x0003_0003 {
        Some(MailboxTag::GetVoltage)
    } else if n == 0x0003_8003 {
        Some(MailboxTag::SetVoltage)
    } else if n == 0x0003_0005 {
        Some(MailboxTag::GetMaxVoltage)
    } else if n == 0x0003_0008 {
        Some(MailboxTag::GetMinVoltage)
    } else if n == 0x0003_0006 {
        Some(MailboxTag::GetTemperature)
    } else if n == 0x0003_000a {
        Some(MailboxTag::GetMaxTemperature)
    } else if n == 0x0003_000c {
        Some(MailboxTag::AllocateMemory)
    } else if n == 0x0003_000d {
        Some(MailboxTag::LockMemory)
    } else if n == 0x0003_000e {
        Some(MailboxTag::UnlockMemory)
    } else if n == 0x0003_000f {
        Some(MailboxTag::ReleaseMemory)
    } else if n == 0x0003_0010 {
        Some(MailboxTag::ExecuteCode)
    } else if n == 0x0003_0014 {
        Some(MailboxTag::GetDispmanxResourceMemHandle)
    } else if n == 0x0004_0001 {
        Some(MailboxTag::AllocateBuffer)
    } else if n == 0x0004_8001 {
        Some(MailboxTag::ReleaseBuffer)
    } else if n == 0x0004_0002 {
        Some(MailboxTag::BlankScreen)
    } else if n == 0x0004_0003 {
        Some(MailboxTag::GetPhysicalWidthHeight)
    } else if n == 0x0004_4003 {
        Some(MailboxTag::TestPhysicalWidthHeight)
    } else if n == 0x0004_8003 {
        Some(MailboxTag::SetPhysicalWidthHeight)
    } else if n == 0x0004_0004 {
        Some(MailboxTag::GetVirtualWidthHeight)
    } else if n == 0x0004_4004 {
        Some(MailboxTag::TestVirtualWidthHeight)
    } else if n == 0x0004_8004 {
        Some(MailboxTag::SetVirtualWidthHeight)
    } else if n == 0x0004_0005 {
        Some(MailboxTag::GetDepth)
    } else if n == 0x0004_4005 {
        Some(MailboxTag::TestDepth)
    } else if n == 0x0004_8005 {
        Some(MailboxTag::SetDepth)
    } else if n == 0x0004_0006 {
        Some(MailboxTag::GetPixelOrder)
    } else if n == 0x0004_4006 {
        Some(MailboxTag::TestPixelOrder)
    } else if n == 0x0004_8006 {
        Some(MailboxTag::SetPixelOrder)
    } else if n == 0x0004_0007 {
        Some(MailboxTag::GetAlphaMode)
    } else if n == 0x0004_4007 {
        Some(MailboxTag::TestAlphaMode)
    } else if n == 0x0004_8007 {
        Some(MailboxTag::SetAlphaMode)
    } else if n == 0x0004_0008 {
        Some(MailboxTag::GetPitch)
    } else if n == 0x0004_0009 {
        Some(MailboxTag::GetVirtualOffset)
    } else if n == 0x0004_4009 {
        Some(MailboxTag::TestVirtualOffset)
    } else if n == 0x0004_8009 {
        Some(MailboxTag::SetVirtualOffset)
    } else if n == 0x0004_000a {
        Some(MailboxTag::GetOverscan)
    } else if n == 0x0004_400a {
        Some(MailboxTag::TestOverscan)
    } else if n == 0x0004_800a {
        Some(MailboxTag::SetOverscan)
    } else if n == 0x0004_000b {
        Some(MailboxTag::GetPalette)
    } else if n == 0x0004_400b {
        Some(MailboxTag::TestPalette)
    } else if n == 0x0004_800b {
        Some(MailboxTag::SetPalette)
    } else if n == 0x0000_8010 {
        Some(MailboxTag::SetCursorInfo)
    } else if n == 0x0000_8011 {
        Some(MailboxTag::SetCursorState)
    } else {
        None
    }
}

/// Every tag is told apart by its code: the firmware identifier of a tag names
/// that tag and no other.
pub proof fn lemma_tag_code_names_tag(a: MailboxTag, b: MailboxTag)
    ensures
        tag_code(a) == tag_code(b) ==> a == b,
{
    lemma_tag_code_decodes(a);
    lemma_tag_code_decodes(b);
}

proof fn lemma_tag_code_decodes(t: MailboxTag)
    ensures
        tag_with_code(tag_code(t)) == Some(t),
{
}

/// Tags come in families: a get form's identifier has bits 14 and 15 clear, the
/// test form's identifier is the get form's with bit 14 set, and the set form's
/// (and that of the release of an allocated buffer) is the get form's with bit 15
/// set.
pub proof fn lemma_tag_families()
    ensures
        tag_code(MailboxTag::GetPowerState) % 0x1_0000 < 0x4000,
        tag_code(MailboxTag::SetPowerState) == tag_code(MailboxTag::GetPowerState) + 0x8000,
        tag_code(MailboxTag::GetClockState) % 0x1_0000 < 0x4000,
        tag_code(MailboxTag::SetClockState) == tag_code(MailboxTag::GetClockState) + 0x8000,
        tag_code(MailboxTag::GetClockRate) % 0x1_0000 < 0x4000,
        tag_code(MailboxTag::SetClockRate) == tag_code(MailboxTag::GetClockRate) + 0x8000,
        tag_code(MailboxTag::GetTurbo) % 0x1_0000 < 0x4000,
        tag_code(MailboxTag::SetTurbo) == tag_code(MailboxTag::GetTurbo) + 0x8000,
        tag_code(MailboxTag::GetVoltage) % 0x1_0000 < 0x4000,
        tag_code(MailboxTag::SetVoltage) == tag_code(MailboxTag::GetVoltage) + 0x8000,
        tag_code(MailboxTag::GetPhysicalWidthHeight) % 0x1_0000 < 0x4000,
        tag_code(MailboxTag::SetPhysicalWidthHeight) == tag_code(MailboxTag::GetPhysicalWidthHeight) + 0x8000,
        tag_code(MailboxTag::TestPhysicalWidthHeight) == tag_code(MailboxTag::GetPhysicalWidthHeight) + 0x4000,
        tag_code(MailboxTag::GetVirtualWidthHeight) % 0x1_0000 < 0x4000,
        tag_code(MailboxTag::SetVirtualWidthHeight) == tag_code(MailboxTag::GetVirtualWidthHeight) + 0x8000,
        tag_code(MailboxTag::TestVirtualWidthHeight) == tag_code(MailboxTag::GetVirtualWidthHeight) + 0x4000,
        tag_code(MailboxTag::GetDepth) % 0x1_0000 < 0x4000,
        tag_code(MailboxTag::SetDepth) == tag_code(MailboxTag::GetDepth) + 0x8000,
        tag_code(MailboxTag::TestDepth) == tag_code(MailboxTag::GetDepth) + 0x4000,
        tag_code(MailboxTag::GetPixelOrder) % 0x1_0000 < 0x4000,
        tag_code(MailboxTag::SetPixelOrder) == tag_code(MailboxTag::GetPixelOrder) + 0x8000,
        tag_code(MailboxTag::TestPixelOrder) == tag_code(MailboxTag::GetPixelOrder) + 0x4000,
        tag_code(MailboxTag::GetAlphaMode) % 0x1_0000 < 0x4000,
        tag_code(MailboxTag::SetAlphaMode) == tag_code(MailboxTag::GetAlphaMode) + 0x8000,
        tag_code(MailboxTag::TestAlphaMode) == tag_code(MailboxTag::GetAlphaMode) + 0x4000,
        tag_code(MailboxTag::GetVirtualOffset) % 0x1_0000 < 0x4000,
        tag_code(MailboxTag::SetVirtualOffset) == tag_code(MailboxTag::GetVirtualOffset) + 0x8000,
        tag_code(MailboxTag::TestVirtualOffset) == tag_code(MailboxTag::GetVirtualOffset) + 0x4000,
        tag_code(MailboxTag::GetOverscan) % 0x1_0000 < 0x4000,
        tag_code(MailboxTag::SetOverscan) == tag_code(MailboxTag::GetOverscan) + 0x8000,
        tag_code(MailboxTag::TestOverscan) == tag_code(MailboxTag::GetOverscan) + 0x4000,
        tag_code(MailboxTag::GetPalette) % 0x1_0000 < 0x4000,
        tag_code(MailboxTag::SetPalette) == tag_code(MailboxTag::GetPalette) + 0x8000,
        tag_code(MailboxTag::TestPalette) == tag_code(MailboxTag::GetPalette) + 0x4000,
        tag_code(MailboxTag::AllocateBuffer) % 0x1_0000 < 0x4000,
        tag_code(MailboxTag::ReleaseBuffer) == tag_code(MailboxTag::AllocateBuffer) + 0x8000,
{
}

impl MailboxTag {
    pub fn code(&self) -> (n: u32)
        ensures
            n == tag_code(*self),
    {
        match self {
            MailboxTag::EndTag => 0x0000_0000,
            MailboxTag::GetFirmwareRevision => 0x0000_0001,
            MailboxTag::GetBoardModel => 0x0001_0001,
            MailboxTag::GetBoardRevision => 0x0001_0002,
            MailboxTag::GetBoardMacAddress => 0x0001_0003,
            MailboxTag::GetBoardSerial => 0x0001_0004,
            MailboxTag::GetARMMemory => 0x0001_0005,
            MailboxTag::GetVCMemory => 0x0001_0006,
            MailboxTag::GetClocks => 0x0001_0007,
            MailboxTag::GetCommandLine => 0x0005_0001,
            MailboxTag::GetDMAChannels => 0x0006_0001,
            MailboxTag::GetPowerState => 0x0002_0001,
            MailboxTag::GetTiming => 0x0002_0002,
            MailboxTag::SetPowerState => 0x0002_8001,
            MailboxTag::GetClockState => 0x0003_0001,
            MailboxTag::SetClockState => 0x0003_8001,
            MailboxTag::GetClockRate => 0x0003_0002,
            MailboxTag::SetClockRate => 0x0003_8002,
            MailboxTag::GetMaxClockRate => 0x0003_0004,
            MailboxTag::GetMinClockRate => 0x0003_0007,
            MailboxTag::GetTurbo => 0x0003_0009,
            MailboxTag::SetTurbo => 0x0003_8009,
            MailboxTag::GetVoltage => 0x0003_0003,
            MailboxTag::SetVoltage => 0x0003_8003,
            MailboxTag::GetMaxVoltage => 0x0003_0005,
            MailboxTag::GetMinVoltage => 0x0003_0008,
            MailboxTag::GetTemperature => 0x0003_0006,
            MailboxTag::GetMaxTemperature => 0x0003_000a,
            MailboxTag::AllocateMemory => 0x0003_000c,
            MailboxTag::LockMemory => 0x0003_000d,
            MailboxTag::UnlockMemory => 0x0003_000e,
            MailboxTag::ReleaseMemory => 0x0003_000f,
            MailboxTag::ExecuteCode => 0x0003_0010,
            MailboxTag::GetDispmanxResourceMemHandle => 0x0003_0014,
            MailboxTag::AllocateBuffer => 0x0004_0001,
            MailboxTag::ReleaseBuffer => 0x0004_8001,
            MailboxTag::BlankScreen => 0x0004_0002,
            MailboxTag::GetPhysicalWidthHeight => 0x0004_0003,
            MailboxTag::TestPhysicalWidthHeight => 0x0004_4003,
            MailboxTag::SetPhysicalWidthHeight => 0x0004_8003,
            MailboxTag::GetVirtualWidthHeight => 0x0004_0004,
            MailboxTag::TestVirtualWidthHeight => 0x0004_4004,
            MailboxTag::SetVirtualWidthHeight => 0x0004_8004,
            MailboxTag::GetDepth => 0x0004_0005,
            MailboxTag::TestDepth => 0x0004_4005,
            MailboxTag::SetDepth => 0x0004_8005,
            MailboxTag::GetPixelOrder => 0x0004_0006,
            MailboxTag::TestPixelOrder => 0x0004_4006,
            MailboxTag::SetPixelOrder => 0x0004_8006,
            MailboxTag::GetAlphaMode => 0x0004_0007,
            MailboxTag::TestAlphaMode => 0x0004_4007,
            MailboxTag::SetAlphaMode => 0x0004_8007,
            MailboxTag::GetPitch => 0x0004_0008,
            MailboxTag::GetVirtualOffset => 0x0004_0009,
            MailboxTag::TestVirtualOffset => 0x0004_4009,
            MailboxTag::SetVirtualOffset => 0x0004_8009,
            MailboxTag::GetOverscan => 0x0004_000a,
            MailboxTag::TestOverscan => 0x0004_400a,
            MailboxTag::SetOverscan => 0x0004_800a,
            MailboxTag::GetPalette => 0x0004_000b,
            MailboxTag::TestPalette => 0x0004_400b,
            MailboxTag::SetPalette => 0x0004_800b,
            MailboxTag::SetCursorInfo => 0x0000_8010,
            MailboxTag::SetCursorState => 0x0000_8011,
        }
    }
}

/// Bits of the mailbox status registers.
#[derive(Copy, Clone, PartialEq, Eq, Debug, Structural)]
pub enum MailboxStatus {
    Full,
    Empty,
}

pub open spec fn mailbox_status_code(s: MailboxStatus) -> u32 {
    match s {
        MailboxStatus::Full => 0x8000_0000,
        MailboxStatus::Empty => 0x4000_0000,
    }
}

/// The two status-register bits are distinct and neither is empty.
pub proof fn lemma_mailbox_status_codes(a: MailboxStatus, b: MailboxStatus)
    ensures
        mailbox_status_code(a) == mailbox_status_code(b) ==> a == b,
        mailbox_status_code(a) != 0,
{
}

impl MailboxStatus {
    pub fn code(&self) -> (n: u32)
        ensures
            n == mailbox_status_code(*self),
    {
        match self {
            MailboxStatus::Full => 0x8000_0000,
            MailboxStatus::Empty => 0x4000_0000,
        }
    }

    /// Whether a value read from a status register has this status bit set.
    pub fn is_set_in(&self, register: u32) -> (b: bool)
        ensures
            b == (register & mailbox_status_code(*self) == mailbox_status_code(*self)),
    {
        let mask = self.code();
        register & mask == mask
    }
}

/// The order of the colour components in a pixel.
#[derive(Copy, Clone, PartialEq, Eq, Debug, Structural)]
pub enum PixelOrder {
    BGR,
    RBG,
}

pub open spec fn pixel_order_code(o: PixelOrder) -> u32 {
    match o {
        PixelOrder::BGR => 0,
        PixelOrder::RBG => 1,
    }
}

/// The two pixel orders have distinct codes, each at most 1.
pub proof fn lemma_pixel_order_codes(a: PixelOrder, b: PixelOrder)
    ensures
        pixel_order_code(a) == pixel_order_code(b) ==> a == b,
        pixel_order_code(a) <= 1,
{
}

impl PixelOrder {
    pub fn code(&self) -> (n: u32)
        ensures
            n == pixel_order_code(*self),
    {
        match self {
            PixelOrder::BGR => 0,
            PixelOrder::RBG => 1,
        }
    }

    /// The order with the given code; other codes name no order.
    pub fn try_from_code(order: u32) -> (r: Option<PixelOrder>)
        ensures
            r is Some <==> order <= 1,
            r matches Some(o) ==> pixel_order_code(o) == order,
    {
        if order == 0 {
            Some(PixelOrder::BGR)
        } else if order == 1 {
            Some(PixelOrder::RBG)
        } else {
            None
        }
    }

    /// The order with the given code, which must be 0 or 1.
    pub fn from_code(order: u32) -> (o: PixelOrder)
        requires
            order <= 1,
        ensures
            pixel_order_code(o) == order,
    {
        if order == 0 {
            PixelOrder::BGR
        } else {
            PixelOrder::RBG
        }
    }
}

/// A property buffer as the firmware reads and writes it: its size in bytes, a
/// status word and the tag words.
pub struct MailboxBuf {
    size: u32,
    status: u32,
    tag_sequence: [u32; 36],
}

/// The words of a property buffer.
pub struct MailboxBufView {
    pub size: u32,
    pub status: u32,
    pub tags: Seq<u32>,
}

impl View for MailboxBuf {
    type V = MailboxBufView;

    closed spec fn view(&self) -> MailboxBufView {
        MailboxBufView { size: self.size, status: self.status, tags: self.tag_sequence@ }
    }
}

impl MailboxBuf {
    /// An empty buffer: size, status and every tag word zero.
    pub fn new() -> (b: Self)
        ensures
            b@.size == 0,
            b@.status == 0,
            b@.tags == Seq::new(36, |i: int| 0u32),
    {
        let b = MailboxBuf { size: 0, status: 0, tag_sequence: [0u32; 36] };
        assert(b.tag_sequence@ =~= Seq::new(36, |i: int| 0u32));
        b
    }

    /// A buffer always holds 36 tag words.
    pub proof fn lemma_tag_count(&self)
        ensures
            self@.tags.len() == 36,
    {
    }

    /// Tag word `i`.
    pub fn tag(&self, i: usize) -> (w: u32)
        requires
            i < 36,
        ensures
            w == self@.tags[i as int],
    {
        self.tag_sequence[i]
    }

    /// Sets tag word `i` to `value`.
    pub fn set_tag(&mut self, i: usize, value: u32)
        requires
            i < 36,
        ensures
            final(self)@.size == old(self)@.size,
            final(self)@.status == old(self)@.status,
            final(self)@.tags == old(self)@.tags.update(i as int, value),
    {
        self.tag_sequence[i] = value;
    }

    /// The size word: the bytes the buffer holds.
    pub fn size(&self) -> (n: u32)
        ensures
            n == self@.size,
    {
        self.size
    }

    /// Sets the size word, as the firmware does in its reply.
    pub fn set_size(&mut self, size: u32)
        ensures
            final(self)@ == (MailboxBufView { size, ..old(self)@ }),
    {
        self.size = size;
    }

    /// All 36 tag words.
    pub fn tag_sequence(&self) -> (t: [u32; 36])
        ensures
            t@ == self@.tags,
    {
        self.tag_sequence
    }

    /// Sets the status word, as the firmware does in its reply.
    pub fn set_status_code(&mut self, status: u32)
        ensures
            final(self)@ == (MailboxBufView { status, ..old(self)@ }),
    {
        self.status = status;
    }

    /// The status word as the firmware left it.
    pub fn status_code(&self) -> (n: u32)
        ensures
            n == self@.status,
    {
        self.status
    }

    /// The status of the buffer, which must hold one of the three status codes.
    pub fn get_status(&self) -> (s: MailboxBufStatus)
        requires
            is_buf_status_code(self@.status),
        ensures
            buf_status_code(s) == self@.status,
    {
        MailboxBufStatus::from_code(self.status)
    }

    /// Readies the buffer for a request whose tags fill the first `tags_len`
    /// words: the size covers those words, the size and status words and the end
    /// tag, the status asks for processing, and the end tag follows the tags.
    pub fn prepare_buf(&mut self, tags_len: usize)
        requires
            tags_len < 36,
        ensures
            final(self)@.size == (tags_len + 3) * 4,
            final(self)@.status == buf_status_code(MailboxBufStatus::ProcessRequest),
            final(self)@.tags == old(self)@.tags.update(
                tags_len as int,
                tag_code(MailboxTag::EndTag),
            ),
    {
        self.size = (tags_len as u32 + 3) * 4;
        self.status = MailboxBufStatus::ProcessRequest.code();
        self.tag_sequence[tags_len] = MailboxTag::EndTag.code();
    }
}

/// The word written to the mailbox to pass the buffer at `buf_address` on
/// `channel`: the address with its low four bits replaced by the channel number.
pub open spec fn spec_call_message(buf_address: u32, channel: MailboxChannel) -> u32 {
    (buf_address & !0xfu32) | channel_code(channel)
}

pub fn call_message(buf_address: u32, channel: MailboxChannel) -> (m: u32)
    ensures
        m == spec_call_message(buf_address, channel),
{
    (buf_address & !0xfu32) | channel.code()
}

/// The outcome of a call once its reply has come back: success exactly when the
/// firmware marked the buffer as successfully processed.
pub fn call_result(status: MailboxBufStatus) -> (r: Result<(), ()>)
    ensures
        r is Ok <==> status == MailboxBufStatus::RequestSuccessful,
{
    match status {
        MailboxBufStatus::RequestSuccessful => Ok(()),
        _ => Err(()),
    }
}

/// The word written to the mailbox to send `data` on `channel`: the data shifted
/// above the four channel bits (its top four bits are lost).
pub open spec fn spec_write_message(channel: MailboxChannel, data: u32) -> u32 {
    (data << 4u32) | channel_code(channel)
}

pub fn write_message(channel: MailboxChannel, data: u32) -> (m: u32)
    ensures
        m == spec_write_message(channel, data),
{
    (data << 4u32) | channel.code()
}

/// What a word read from the mailbox carries for a reader waiting on `channel`:
/// its upper 28 bits when it came on that channel, nothing otherwise.
pub open spec fn spec_read_message(channel: MailboxChannel, word: u32) -> Option<u32> {
    if MailboxChannel::from_spec(word) == channel {
        Some(word >> 4u32)
    } else {
        None
    }
}

pub fn read_message(channel: MailboxChannel, word: u32) -> (r: Option<u32>)
    ensures
        r == spec_read_message(channel, word),
{
    let read_channel = MailboxChannel::from(word);
    if read_channel == channel {
        Some(word >> 4u32)
    } else {
        None
    }
}

/// A call message names the channel it was made on and keeps the upper 28 bits
/// of the buffer address.
pub proof fn lemma_call_message(buf_address: u32, channel: MailboxChannel)
    ensures
        MailboxChannel::from_spec(spec_call_message(buf_address, channel)) == channel,
        spec_call_message(buf_address, channel) & !0xfu32 == buf_address & !0xfu32,
{
    lemma_channel_code_round_trip(channel);
    let n = channel_code(channel);
    let m = spec_call_message(buf_address, channel);
    assert((m & 0xf == n) && (m & !0xfu32 == buf_address & !0xfu32)) by (bit_vector)
        requires
            n < 16,
            m == (buf_address & !0xfu32) | n,
    ;
}

/// Reading on a channel the word written to it gives back the data, less its top
/// four bits.
pub proof fn lemma_read_written_message(channel: MailboxChannel, data: u32)
    ensures
        spec_read_message(channel, spec_write_message(channel, data)) == Some(data & 0x0fff_ffffu32),
{
    lemma_channel_code_round_trip(channel);
    let n = channel_code(channel);
    let m = spec_write_message(channel, data);
    assert((m & 0xf == n) && (m >> 4u32 == data & 0x0fff_ffffu32)) by (bit_vector)
        requires
            n < 16,
            m == (data << 4u32) | n,
    ;
}

} // verus!
