//! The supervisor binary interface: identifiers, results, and the dispatcher
//! that turns one supervisor call into either an immediate reply or a single
//! piece of outside work (console, timer, IPI) followed by a reply.
use vstd::prelude::*;

use crate::ipi::IPIReq;

verus! {

/// Implementation identifier reported by the base extension ("Meow" read as
/// little-endian bytes).
pub const SBI_IMPL_ID: usize = 0x776f654d;

/// Implementation version reported by the base extension.
pub const SBI_IMPL_VERSION: usize = 0x1;

/// Specification version reported by the base extension: major version 0 in
/// bits 24 and up, minor version 2 below them.
pub const SBI_SPEC_VERSION: usize = 0x0000_0002;

/// The extensions that this firmware implements.
#[derive(Clone, Copy, PartialEq, Eq, Structural, Debug)]
#[allow(non_camel_case_types)]
pub enum SBIExt {
    SetTimer,
    ConsolePutChar,
    ConsoleGetChar,
    ClearIPI,
    SendIPI,
    RemoteFENCE_I,
    RemoteSFENCE_VMA,
    RemoteSFENCE_VMA_ASID,
    Shutdown,
    Base,
    IPI,
    RFENCE,
    TIME,
}

impl SBIExt {
    /// The numeric extension identifier of each extension.
    pub open spec fn spec_id(self) -> usize {
        match self {
            SBIExt::SetTimer => 0x00,
            SBIExt::ConsolePutChar => 0x01,
            SBIExt::ConsoleGetChar => 0x02,
            SBIExt::ClearIPI => 0x03,
            SBIExt::SendIPI => 0x04,
            SBIExt::RemoteFENCE_I => 0x05,
            SBIExt::RemoteSFENCE_VMA => 0x06,
            SBIExt::RemoteSFENCE_VMA_ASID => 0x07,
            SBIExt::Shutdown => 0x08,
            SBIExt::Base => 0x10,
            SBIExt::IPI => 0x735049,
            SBIExt::RFENCE => 0x52464E43,
            SBIExt::TIME => 0x54494D45,
        }
    }

    /// The extension with a given identifier, if it is one of the supported set.
    pub open spec fn spec_from_id(id: usize) -> Option<SBIExt> {
        if id == 0x00 {
            Some(SBIExt::SetTimer)
        } else if id == 0x01 {
            Some(SBIExt::ConsolePutChar)
        } else if id == 0x02 {
            Some(SBIExt::ConsoleGetChar)
        } else if id == 0x03 {
            Some(SBIExt::ClearIPI)
        } else if id == 0x04 {
            Some(SBIExt::SendIPI)
        } else if id == 0x05 {
            Some(SBIExt::RemoteFENCE_I)
        } else if id == 0x06 {
            Some(SBIExt::RemoteSFENCE_VMA)
        } else if id == 0x07 {
            Some(SBIExt::RemoteSFENCE_VMA_ASID)
        } else if id == 0x08 {
            Some(SBIExt::Shutdown)
        } else if id == 0x10 {
            Some(SBIExt::Base)
        } else if id == 0x735049 {
            Some(SBIExt::IPI)
        } else if id == 0x52464E43 {
            Some(SBIExt::RFENCE)
        } else if id == 0x54494D45 {
            Some(SBIExt::TIME)
        } else {
            None
        }
    }

    #[verifier::when_used_as_spec(spec_id)]
    pub fn id(self) -> (r: usize)
        ensures
            r == self.spec_id(),
    {
        match self {
            SBIExt::SetTimer => 0x00,
            SBIExt::ConsolePutChar => 0x01,
            SBIExt::ConsoleGetChar => 0x02,
            SBIExt::ClearIPI => 0x03,
            SBIExt::SendIPI => 0x04,
            SBIExt::RemoteFENCE_I => 0x05,
            SBIExt::RemoteSFENCE_VMA => 0x06,
            SBIExt::RemoteSFENCE_VMA_ASID => 0x07,
            SBIExt::Shutdown => 0x08,
            SBIExt::Base => 0x10,
            SBIExt::IPI => 0x735049,
            SBIExt::RFENCE => 0x52464E43,
            SBIExt::TIME => 0x54494D45,
        }
    }

    /// Maps a raw identifier to an extension, with `None` for every identifier
    /// outside the supported set.
    pub fn from_id(id: usize) -> (r: Option<SBIExt>)
        ensures
            r == Self::spec_from_id(id),
            r matches Some(e) ==> e.spec_id() == id,
    {
        if id == 0x00 {
            Some(SBIExt::SetTimer)
        } else if id == 0x01 {
            Some(SBIExt::ConsolePutChar)
        } else if id == 0x02 {
            Some(SBIExt::ConsoleGetChar)
        } else if id == 0x03 {
            Some(SBIExt::ClearIPI)
        } else if id == 0x04 {
            Some(SBIExt::SendIPI)
        } else if id == 0x05 {
            Some(SBIExt::RemoteFENCE_I)
        } else if id == 0x06 {
            Some(SBIExt::RemoteSFENCE_VMA)
        } else if id == 0x07 {
            Some(SBIExt::RemoteSFENCE_VMA_ASID)
        } else if id == 0x08 {
            Some(SBIExt::Shutdown)
        } else if id == 0x10 {
            Some(SBIExt::Base)
        } else if id == 0x735049 {
            Some(SBIExt::IPI)
        } else if id == 0x52464E43 {
            Some(SBIExt::RFENCE)
        } else if id == 0x54494D45 {
            Some(SBIExt::TIME)
        } else {
            None
        }
    }
}

/// An identifier is in the supported set exactly when it is the identifier of
/// one of the extensions, and mapping it back gives that extension.
pub proof fn lemma_ext_id_round_trip(e: SBIExt, id: usize)
    ensures
        SBIExt::spec_from_id(e.spec_id()) == Some(e),
        SBIExt::spec_from_id(id) == Some(e) <==> e.spec_id() == id,
{
}

/// The functions of the base extension.
#[derive(Clone, Copy, PartialEq, Eq, Structural, Debug)]
pub enum SBIBaseFunc {
    GetSBISpecVersion,
    GetSBIImplID,
    GetSBIImplVersion,
    ProbExtension,
    GetMVENDROID,
    GetMARCHID,
    GetMIMPLID,
}

impl SBIBaseFunc {
    /// The base function with a given function identifier (0 to 6).
    pub open spec fn spec_from_id(id: usize) -> Option<SBIBaseFunc> {
        if id == 0 {
            Some(SBIBaseFunc::GetSBISpecVersion)
        } else if id == 1 {
            Some(SBIBaseFunc::GetSBIImplID)
        } else if id == 2 {
            Some(SBIBaseFunc::GetSBIImplVersion)
        } else if id == 3 {
            Some(SBIBaseFunc::ProbExtension)
        } else if id == 4 {
            Some(SBIBaseFunc::GetMVENDROID)
        } else if id == 5 {
            Some(SBIBaseFunc::GetMARCHID)
        } else if id == 6 {
            Some(SBIBaseFunc::GetMIMPLID)
        } else {
            None
        }
    }

    pub fn from_id(id: usize) -> (r: Option<SBIBaseFunc>)
        ensures
            r == Self::spec_from_id(id),
    {
        if id == 0 {
            Some(SBIBaseFunc::GetSBISpecVersion)
        } else if id == 1 {
            Some(SBIBaseFunc::GetSBIImplID)
        } else if id == 2 {
            Some(SBIBaseFunc::GetSBIImplVersion)
        } else if id == 3 {
            Some(SBIBaseFunc::ProbExtension)
        } else if id == 4 {
            Some(SBIBaseFunc::GetMVENDROID)
        } else if id == 5 {
            Some(SBIBaseFunc::GetMARCHID)
        } else if id == 6 {
            Some(SBIBaseFunc::GetMIMPLID)
        } else {
            None
        }
    }
}

/// The error classification of a call result.
#[derive(Clone, Copy, PartialEq, Eq, Structural, Debug)]
pub enum SBIErr {
    Success,
    /// Success of a legacy call whose result is the value alone.
    Legacy,
    Failed,
    NotSupported,
    InvalidParam,
    Denied,
    InvalidAddress,
    AlreadyAvailable,
}

impl SBIErr {
    pub open spec fn spec_code(self) -> isize {
        match self {
            SBIErr::Success => 0,
            SBIErr::Legacy => 1,
            SBIErr::Failed => -1isize,
            SBIErr::NotSupported => -2isize,
            SBIErr::InvalidParam => -3isize,
            SBIErr::Denied => -4isize,
            SBIErr::InvalidAddress => -5isize,
            SBIErr::AlreadyAvailable => -6isize,
        }
    }

    /// The signed code of the classification, as the caller's register holds it.
    #[verifier::when_used_as_spec(spec_code)]
    pub fn code(self) -> (r: isize)
        ensures
            r == self.spec_code(),
    {
        match self {
            SBIErr::Success => 0,
            SBIErr::Legacy => 1,
            SBIErr::Failed => -1isize,
            SBIErr::NotSupported => -2isize,
            SBIErr::InvalidParam => -3isize,
            SBIErr::Denied => -4isize,
            SBIErr::InvalidAddress => -5isize,
            SBIErr::AlreadyAvailable => -6isize,
        }
    }
}

/// The result of one call: a classification and a value word.
#[derive(Clone, Copy, PartialEq, Eq, Structural, Debug)]
pub struct SBIRet {
    pub error: SBIErr,
    pub value: usize,
}

/// A successful result carrying `v`.
impl From<usize> for SBIRet {
    fn from(v: usize) -> (r: SBIRet)
        ensures
            r == (SBIRet { error: SBIErr::Success, value: v }),
    {
        SBIRet { error: SBIErr::Success, value: v }
    }
}

impl vstd::std_specs::convert::FromSpecImpl<usize> for SBIRet {
    open spec fn obeys_from_spec() -> bool {
        true
    }

    open spec fn from_spec(v: usize) -> SBIRet {
        SBIRet { error: SBIErr::Success, value: v }
    }
}

/// A result with classification `e` and value 0.
impl From<SBIErr> for SBIRet {
    fn from(e: SBIErr) -> (r: SBIRet)
        ensures
            r == (SBIRet { error: e, value: 0 }),
    {
        SBIRet { error: e, value: 0 }
    }
}

impl vstd::std_specs::convert::FromSpecImpl<SBIErr> for SBIRet {
    open spec fn obeys_from_spec() -> bool {
        true
    }

    open spec fn from_spec(e: SBIErr) -> SBIRet {
        SBIRet { error: e, value: 0 }
    }
}

/// `Some(v)` is success with `v`; `None` is not-supported.
impl From<Option<usize>> for SBIRet {
    fn from(v: Option<usize>) -> (r: SBIRet)
        ensures
            r == option_ret(v),
    {
        match v {
            None => SBIRet { error: SBIErr::NotSupported, value: 0 },
            Some(v) => SBIRet { error: SBIErr::Success, value: v },
        }
    }
}

impl vstd::std_specs::convert::FromSpecImpl<Option<usize>> for SBIRet {
    open spec fn obeys_from_spec() -> bool {
        true
    }

    open spec fn from_spec(v: Option<usize>) -> SBIRet {
        option_ret(v)
    }
}

pub open spec fn ok_ret(v: usize) -> SBIRet {
    SBIRet { error: SBIErr::Success, value: v }
}

pub open spec fn err_ret(e: SBIErr) -> SBIRet {
    SBIRet { error: e, value: 0 }
}

pub open spec fn option_ret(v: Option<usize>) -> SBIRet {
    match v {
        None => err_ret(SBIErr::NotSupported),
        Some(v) => ok_ret(v),
    }
}

/// A machine identification register that the base extension passes through.
#[derive(Clone, Copy, PartialEq, Eq, Structural, Debug)]
pub enum MachineId {
    Vendor,
    Arch,
    Impl,
}

/// What a call asks of the hart that took it.
#[derive(Clone, Copy, PartialEq, Eq, Structural, Debug)]
pub enum SbiAction {
    /// Nothing to do: reply with this result.
    Reply(SBIRet),
    /// Read a machine identification register (absent on some harts).
    ReadMachineId(MachineId),
    /// Write one byte to the console.
    PutChar(u8),
    /// Read one byte from the console.
    GetChar,
    /// Program this hart's timer comparator with an absolute instant, then
    /// settle the timer-pending bits (see `timer_update`).
    SetTimer(u64),
    /// Clear the supervisor software-interrupt pending bit.
    ClearSoftIpi,
    /// Send `req` to every hart in `mask`.
    SendIpi { mask: usize, req: IPIReq },
    /// Read the hart mask from the caller's memory at `addr` and send `req` to
    /// those harts. With `translated`, the 32-bit word is read through the
    /// supervisor's address translation; otherwise a full word is read as a
    /// machine physical address.
    SendIpiAt { addr: usize, translated: bool, req: IPIReq },
    /// Halt this hart for good.
    Shutdown,
}

/// The hart mask of an IPI or fence call: `mask` shifted left by `base`, or
/// `mask` itself when `base` is the all-ones word. Harts beyond the width of a
/// word cannot be named, so a base of a word's width or more selects none.
pub open spec fn spec_ipi_mask(mask: usize, base: usize) -> usize {
    if base == usize::MAX {
        mask
    } else if base >= 64 {
        0
    } else {
        ((mask as u64) << (base as u64)) as usize
    }
}

pub fn ipi_mask(mask: usize, base: usize) -> (r: usize)
    ensures
        r == spec_ipi_mask(mask, base),
{
    if base == usize::MAX {
        mask
    } else if base >= 64 {
        0
    } else {
        ((mask as u64) << (base as u64)) as usize
    }
}

/// The legacy IPI calls take the address of a hart mask, where 0 means every
/// hart.
pub open spec fn mask_at_spec(addr: usize, req: IPIReq) -> SbiAction {
    if addr == 0 {
        SbiAction::SendIpi { mask: usize::MAX, req }
    } else {
        SbiAction::SendIpiAt { addr, translated: true, req }
    }
}

fn mask_at(addr: usize, req: IPIReq) -> (r: SbiAction)
    ensures
        r == mask_at_spec(addr, req),
{
    if addr == 0 {
        SbiAction::SendIpi { mask: usize::MAX, req }
    } else {
        SbiAction::SendIpiAt { addr, translated: true, req }
    }
}

/// What a function of the base extension does.
pub open spec fn base_spec(func: usize, a0: usize) -> SbiAction {
    match SBIBaseFunc::spec_from_id(func) {
        None => SbiAction::Reply(err_ret(SBIErr::NotSupported)),
        Some(f) => match f {
            SBIBaseFunc::GetSBISpecVersion => SbiAction::Reply(ok_ret(SBI_SPEC_VERSION)),
            SBIBaseFunc::GetSBIImplID => SbiAction::Reply(ok_ret(SBI_IMPL_ID)),
            SBIBaseFunc::GetSBIImplVersion => SbiAction::Reply(ok_ret(SBI_IMPL_VERSION)),
            SBIBaseFunc::ProbExtension => SbiAction::Reply(
                if SBIExt::spec_from_id(a0) is Some {
                    err_ret(SBIErr::Success)
                } else {
                    err_ret(SBIErr::NotSupported)
                },
            ),
            SBIBaseFunc::GetMVENDROID => SbiAction::ReadMachineId(MachineId::Vendor),
            SBIBaseFunc::GetMARCHID => SbiAction::ReadMachineId(MachineId::Arch),
            SBIBaseFunc::GetMIMPLID => SbiAction::ReadMachineId(MachineId::Impl),
        },
    }
}

/// What each call does: the dispatch table of the supported extensions, with
/// not-supported for an unknown extension or function.
pub open spec fn call_spec(ext: usize, func: usize, a0: usize, a1: usize, a2: usize) -> SbiAction {
    let not_supported = SbiAction::Reply(err_ret(SBIErr::NotSupported));
    match SBIExt::spec_from_id(ext) {
        None => not_supported,
        Some(e) => match e {
            SBIExt::Base => base_spec(func, a0),
            SBIExt::ConsolePutChar => SbiAction::PutChar(a0 as u8),
            SBIExt::ConsoleGetChar => SbiAction::GetChar,
            SBIExt::SetTimer => SbiAction::SetTimer(a0 as u64),
            SBIExt::ClearIPI => SbiAction::ClearSoftIpi,
            SBIExt::SendIPI => mask_at_spec(a0, IPIReq::S_IPI),
            SBIExt::RemoteFENCE_I => mask_at_spec(a0, IPIReq::FENCE_I),
            SBIExt::RemoteSFENCE_VMA => mask_at_spec(a0, IPIReq::SFENCE_VMA),
            SBIExt::RemoteSFENCE_VMA_ASID => SbiAction::SendIpiAt {
                addr: a0,
                translated: false,
                req: IPIReq::SFENCE_VMA,
            },
            SBIExt::Shutdown => SbiAction::Shutdown,
            SBIExt::IPI => if func == 0 {
                SbiAction::SendIpi { mask: spec_ipi_mask(a0, a1), req: IPIReq::S_IPI }
            } else {
                not_supported
            },
            SBIExt::RFENCE => if func == 0 {
                SbiAction::SendIpi { mask: spec_ipi_mask(a0, a1), req: IPIReq::FENCE_I }
            } else if func == 1 || func == 2 {
                SbiAction::SendIpi { mask: spec_ipi_mask(a0, a1), req: IPIReq::SFENCE_VMA }
            } else {
                not_supported
            },
            SBIExt::TIME => if func == 0 {
                SbiAction::SetTimer(a0 as u64)
            } else {
                not_supported
            },
        },
    }
}

fn base_call(func: usize, a0: usize) -> (r: SbiAction)
    ensures
        r == base_spec(func, a0),
{
    match SBIBaseFunc::from_id(func) {
        None => SbiAction::Reply(SBIErr::NotSupported.into()),
        Some(f) => match f {
            SBIBaseFunc::GetSBISpecVersion => SbiAction::Reply(SBI_SPEC_VERSION.into()),
            SBIBaseFunc::GetSBIImplID => SbiAction::Reply(SBI_IMPL_ID.into()),
            SBIBaseFunc::GetSBIImplVersion => SbiAction::Reply(SBI_IMPL_VERSION.into()),
            SBIBaseFunc::ProbExtension => {
                if SBIExt::from_id(a0).is_some() {
                    SbiAction::Reply(SBIErr::Success.into())
                } else {
                    SbiAction::Reply(SBIErr::NotSupported.into())
                }
            },
            SBIBaseFunc::GetMVENDROID => SbiAction::ReadMachineId(MachineId::Vendor),
            SBIBaseFunc::GetMARCHID => SbiAction::ReadMachineId(MachineId::Arch),
            SBIBaseFunc::GetMIMPLID => SbiAction::ReadMachineId(MachineId::Impl),
        },
    }
}

/// Dispatches one call by its extension and function identifiers and its
/// three argument words. An unknown extension or function is answered with
/// not-supported; nothing here fails otherwise.
pub fn call(ext: usize, func: usize, a0: usize, a1: usize, a2: usize) -> (r: SbiAction)
    ensures
        r == call_spec(ext, func, a0, a1, a2),
{
    let not_supported = SbiAction::Reply(SBIErr::NotSupported.into());
    match SBIExt::from_id(ext) {
        None => not_supported,
        Some(e) => match e {
            SBIExt::Base => base_call(func, a0),
            SBIExt::ConsolePutChar => SbiAction::PutChar(a0 as u8),
            SBIExt::ConsoleGetChar => SbiAction::GetChar,
            SBIExt::SetTimer => SbiAction::SetTimer(a0 as u64),
            SBIExt::ClearIPI => SbiAction::ClearSoftIpi,
            SBIExt::SendIPI => mask_at(a0, IPIReq::S_IPI),
            SBIExt::RemoteFENCE_I => mask_at(a0, IPIReq::FENCE_I),
            SBIExt::RemoteSFENCE_VMA => mask_at(a0, IPIReq::SFENCE_VMA),
            SBIExt::RemoteSFENCE_VMA_ASID => SbiAction::SendIpiAt {
                addr: a0,
                translated: false,
                req: IPIReq::SFENCE_VMA,
            },
            SBIExt::Shutdown => SbiAction::Shutdown,
            SBIExt::IPI => {
                if func == 0 {
                    SbiAction::SendIpi { mask: ipi_mask(a0, a1), req: IPIReq::S_IPI }
                } else {
                    not_supported
                }
            },
            SBIExt::RFENCE => {
                if func == 0 {
                    SbiAction::SendIpi { mask: ipi_mask(a0, a1), req: IPIReq::FENCE_I }
                } else if func == 1 || func == 2 {
                    SbiAction::SendIpi { mask: ipi_mask(a0, a1), req: IPIReq::SFENCE_VMA }
                } else {
                    not_supported
                }
            },
            SBIExt::TIME => {
                if func == 0 {
                    SbiAction::SetTimer(a0 as u64)
                } else {
                    not_supported
                }
            },
        },
    }
}

/// The result of a call once its action has been carried out. `read` is what
/// the action read: the byte for `GetChar` (`None` when no byte came, which
/// the legacy convention reports as all ones) and the register value for
/// `ReadMachineId` (`None` when the hart lacks that register). Every other
/// action succeeds with value 0.
pub open spec fn complete_spec(action: SbiAction, read: Option<usize>) -> SBIRet {
    match action {
        SbiAction::Reply(r) => r,
        SbiAction::ReadMachineId(_) => option_ret(read),
        SbiAction::GetChar => SBIRet {
            error: SBIErr::Legacy,
            value: match read {
                Some(c) => c,
                None => usize::MAX,
            },
        },
        _ => ok_ret(0),
    }
}

pub fn complete(action: SbiAction, read: Option<usize>) -> (r: SBIRet)
    ensures
        r == complete_spec(action, read),
{
    match action {
        SbiAction::Reply(r) => r,
        SbiAction::ReadMachineId(_) => read.into(),
        SbiAction::GetChar => SBIRet {
            error: SBIErr::Legacy,
            value: match read {
                Some(c) => c,
                None => usize::MAX,
            },
        },
        _ => 0usize.into(),
    }
}

/// The pairs of extension and function identifiers that this firmware serves.
/// The legacy extensions take any function identifier; shutdown never returns
/// and so is left out.
pub open spec fn supported_pair(ext: usize, func: usize) -> bool {
    match SBIExt::spec_from_id(ext) {
        None => false,
        Some(e) => match e {
            SBIExt::Base => func <= 6,
            SBIExt::IPI => func == 0,
            SBIExt::RFENCE => func <= 2,
            SBIExt::TIME => func == 0,
            SBIExt::Shutdown => false,
            _ => true,
        },
    }
}

/// Every supported pair is served: its call succeeds once its action is done
/// (a machine identification register the hart lacks reports not-supported,
/// and a probe reports whether the probed extension is supported); the base queries answer with the documented
/// values; probing answers success exactly for the supported extensions.
pub proof fn lemma_supported_calls_succeed(
    ext: usize,
    func: usize,
    a0: usize,
    a1: usize,
    a2: usize,
    read: Option<usize>,
)
    ensures
        supported_pair(ext, func) && !(call_spec(ext, func, a0, a1, a2) is ReadMachineId) && !(
        ext == 0x10 && func == 3) ==> {
            let r = complete_spec(call_spec(ext, func, a0, a1, a2), read);
            r.error == SBIErr::Success || r.error == SBIErr::Legacy
        },
        supported_pair(ext, func) && call_spec(ext, func, a0, a1, a2) is ReadMachineId
            && read is Some ==> complete_spec(call_spec(ext, func, a0, a1, a2), read) == ok_ret(
            read->0,
        ),
        !supported_pair(ext, func) && ext != 0x08 ==> call_spec(ext, func, a0, a1, a2)
            == SbiAction::Reply(err_ret(SBIErr::NotSupported)),
        call_spec(0x10, 0, a0, a1, a2) == SbiAction::Reply(ok_ret(SBI_SPEC_VERSION)),
        call_spec(0x10, 1, a0, a1, a2) == SbiAction::Reply(ok_ret(SBI_IMPL_ID)),
        call_spec(0x10, 2, a0, a1, a2) == SbiAction::Reply(ok_ret(SBI_IMPL_VERSION)),
        call_spec(0x10, 3, a0, a1, a2) == SbiAction::Reply(
            if SBIExt::spec_from_id(a0) is Some {
                ok_ret(0)
            } else {
                err_ret(SBIErr::NotSupported)
            },
        ),
{
}

/// Whether a `mip` value has the machine timer-pending bit (bit 7) set.
pub open spec fn spec_mtimer_pending(mip: usize) -> bool {
    (mip / 128) % 2 == 1
}

/// Relies on riscv's `Mip::from_bits` and `Mip::mtimer`: the machine
/// timer-pending bit is bit 7.
#[verifier::external_body]
fn mtimer_pending(mip: usize) -> (r: bool)
    ensures
        r == spec_mtimer_pending(mip),
{
    riscv::register::mip::Mip::from_bits(mip).mtimer()
}

/// The timer interrupt bits to set once the comparator has been programmed.
#[derive(Clone, Copy, PartialEq, Eq, Structural, Debug)]
pub struct TimerBits {
    /// The machine timer interrupt-enable bit (`mie.MTIE`).
    pub machine_timer_enabled: bool,
    /// The supervisor's virtual timer-pending bit (`mip.STIP`).
    pub supervisor_timer_pending: bool,
}

/// Settles the timer bits after a new instant was programmed, from the `mip`
/// read just after. If the machine timer is already pending, the supervisor's
/// timer fires at once: its virtual bit is raised and the machine timer is
/// masked (clearing the physical condition first could let it re-arm before
/// the supervisor serves it). Otherwise the machine timer is unmasked and the
/// virtual bit cleared.
pub fn timer_update(mip: usize) -> (r: TimerBits)
    ensures
        spec_mtimer_pending(mip) ==> !r.machine_timer_enabled && r.supervisor_timer_pending,
        !spec_mtimer_pending(mip) ==> r.machine_timer_enabled && !r.supervisor_timer_pending,
{
    if mtimer_pending(mip) {
        TimerBits { machine_timer_enabled: false, supervisor_timer_pending: true }
    } else {
        TimerBits { machine_timer_enabled: true, supervisor_timer_pending: false }
    }
}

} // verus!
