//! What a script handler may ask of the emulation backend while it runs.
//!
//! A script works with signed 64-bit integers and with register names. Each
//! function here checks what the script handed over and turns it into a
//! request that the backend can carry out as it stands: the register is
//! resolved, and every number is known to fit the type the backend takes.
//! A request that cannot be made is reported; it is never bent into another
//! one.

use crate::qecu::arch::tricore::{lookup, resolve, RegisterId};
use crate::qecu::interceptor::Interceptor;
use crate::utils::text::canonical;
use vstd::prelude::*;
use vstd::string::StringExecFns;

verus! {

/// Something for the emulation backend to do on behalf of a script.
#[derive(Clone, Debug, PartialEq, Eq)]
pub enum BackendRequest {
    ReadRegister { register: RegisterId },
    WriteRegister { register: RegisterId, value: u64 },
    ReadMemory { address: u64, size: usize },
    WriteMemory { address: u64, data: Vec<u8> },
    SetPc { address: u64 },
    /// Read `size` bytes at `address` and disassemble them.
    Disassemble { address: u64, size: u32 },
    /// Block the thread that runs the emulation for `millis` milliseconds.
    /// Nothing is emulated in the meantime.
    Sleep { millis: u64 },
}

/// The mathematical value of a [`BackendRequest`].
pub enum BackendRequestView {
    ReadRegister { register: RegisterId },
    WriteRegister { register: RegisterId, value: u64 },
    ReadMemory { address: u64, size: usize },
    WriteMemory { address: u64, data: Seq<u8> },
    SetPc { address: u64 },
    Disassemble { address: u64, size: u32 },
    Sleep { millis: u64 },
}

impl View for BackendRequest {
    type V = BackendRequestView;

    open spec fn view(&self) -> BackendRequestView {
        match self {
            BackendRequest::ReadRegister { register } => BackendRequestView::ReadRegister {
                register: *register,
            },
            BackendRequest::WriteRegister { register, value } => BackendRequestView::WriteRegister {
                register: *register,
                value: *value,
            },
            BackendRequest::ReadMemory { address, size } => BackendRequestView::ReadMemory {
                address: *address,
                size: *size,
            },
            BackendRequest::WriteMemory { address, data } => BackendRequestView::WriteMemory {
                address: *address,
                data: data@,
            },
            BackendRequest::SetPc { address } => BackendRequestView::SetPc { address: *address },
            BackendRequest::Disassemble { address, size } => BackendRequestView::Disassemble {
                address: *address,
                size: *size,
            },
            BackendRequest::Sleep { millis } => BackendRequestView::Sleep { millis: *millis },
        }
    }
}

/// Why a script's request cannot be made.
#[derive(Clone, Copy, Debug, PartialEq, Eq, Structural)]
pub enum CapabilityError {
    /// The register name is not in the catalogue.
    UnknownRegister,
    /// The address is negative.
    Address,
    /// The size is negative or too large.
    Size,
    /// The value is negative, or too large for a script's integer.
    Value,
    /// The duration is negative.
    Duration,
}

/// The view of the outcome of a request.
pub open spec fn request_view(result: Result<BackendRequest, CapabilityError>) -> Result<
    BackendRequestView,
    CapabilityError,
> {
    match result {
        Ok(request) => Ok(request@),
        Err(e) => Err(e),
    }
}

/// The request to read the register that `canonical` names in the catalogue.
pub open spec fn read_register_request(canonical: Seq<char>) -> Result<
    BackendRequestView,
    CapabilityError,
> {
    match lookup(canonical) {
        Some(register) => Ok(BackendRequestView::ReadRegister { register }),
        None => Err(CapabilityError::UnknownRegister),
    }
}

/// The request to write `value` to the register that `canonical` names in
/// the catalogue. The name is looked at first, then the value.
pub open spec fn write_register_request(canonical: Seq<char>, value: i64) -> Result<
    BackendRequestView,
    CapabilityError,
> {
    match lookup(canonical) {
        Some(register) => if value < 0 {
            Err(CapabilityError::Value)
        } else {
            Ok(BackendRequestView::WriteRegister { register, value: value as u64 })
        },
        None => Err(CapabilityError::UnknownRegister),
    }
}

/// The request to read `size` bytes at `address`. The address is looked at
/// first, then the size.
pub open spec fn read_memory_request(address: i64, size: i64) -> Result<
    BackendRequestView,
    CapabilityError,
> {
    if address < 0 {
        Err(CapabilityError::Address)
    } else if size < 0 || size > usize::MAX {
        Err(CapabilityError::Size)
    } else {
        Ok(BackendRequestView::ReadMemory { address: address as u64, size: size as usize })
    }
}

/// The request to write `data` at `address`.
pub open spec fn write_memory_request(address: i64, data: Seq<u8>) -> Result<
    BackendRequestView,
    CapabilityError,
> {
    if address < 0 {
        Err(CapabilityError::Address)
    } else {
        Ok(BackendRequestView::WriteMemory { address: address as u64, data })
    }
}

/// The request to disassemble the `size` bytes at `address`. The address is
/// looked at first, then the size.
pub open spec fn disas_request(address: i64, size: i64) -> Result<
    BackendRequestView,
    CapabilityError,
> {
    if address < 0 {
        Err(CapabilityError::Address)
    } else if size < 0 || size > u32::MAX || size > usize::MAX {
        Err(CapabilityError::Size)
    } else {
        Ok(BackendRequestView::Disassemble { address: address as u64, size: size as u32 })
    }
}

/// A decoded instruction.
#[derive(Clone, Debug, PartialEq, Eq)]
pub struct Instruction {
    pub mnemonic: String,
    /// The operands, as text.
    pub body: String,
}

/// The mathematical value of an [`Instruction`].
pub struct InstructionView {
    pub mnemonic: Seq<char>,
    pub body: Seq<char>,
}

impl View for Instruction {
    type V = InstructionView;

    open spec fn view(&self) -> InstructionView {
        InstructionView { mnemonic: self.mnemonic@, body: self.body@ }
    }
}

/// The views of a list of instructions.
pub open spec fn instructions_view(instructions: Seq<Instruction>) -> Seq<InstructionView> {
    instructions.map_values(|i: Instruction| i@)
}

/// The line of text for one instruction: the mnemonic, a blank, the operands.
pub open spec fn line_of(instruction: InstructionView) -> Seq<char> {
    instruction.mnemonic + seq![' '] + instruction.body
}

/// The text for a run of instructions: the line of each, one after the
/// other with nothing between them.
pub open spec fn text_of(instructions: Seq<InstructionView>) -> Seq<char>
    decreases instructions.len(),
{
    if instructions.len() == 0 {
        Seq::empty()
    } else {
        text_of(instructions.drop_last()) + line_of(instructions.last())
    }
}

/// The text that a script receives for the decoded `instructions`.
pub fn disassembly_text(instructions: &Vec<Instruction>) -> (text: String)
    ensures
        text@ == text_of(instructions_view(instructions@)),
{
    let mut text = String::new();
    let mut i: usize = 0;
    let ghost views = instructions_view(instructions@);
    assert(views.take(0) =~= Seq::<InstructionView>::empty());
    while i < instructions.len()
        invariant
            0 <= i <= instructions.len(),
            views == instructions_view(instructions@),
            text@ == text_of(views.take(i as int)),
        decreases instructions.len() - i,
    {
        let instruction = &instructions[i];
        proof {
            reveal_strlit(" ");
            assert(views.take(i + 1).drop_last() =~= views.take(i as int));
            assert(views.take(i + 1).last() == instruction@);
            assert(" "@ =~= seq![' ']);
        }
        let ghost before = text@;
        text.append(instruction.mnemonic.as_str());
        text.append(" ");
        text.append(instruction.body.as_str());
        proof {
            assert(text@ =~= before + line_of(instruction@));
        }
        i += 1;
    }
    assert(views.take(i as int) =~= views);
    text
}

/// A value of the backend as a script's integer; values above the largest
/// signed 64-bit integer have none.
pub fn script_value(value: u64) -> (result: Result<i64, CapabilityError>)
    ensures
        result == (if value <= i64::MAX {
            Ok::<i64, CapabilityError>(value as i64)
        } else {
            Err::<i64, CapabilityError>(CapabilityError::Value)
        }),
{
    if value <= 0x7FFF_FFFF_FFFF_FFFF {
        Ok(value as i64)
    } else {
        Err(CapabilityError::Value)
    }
}

impl<D> Interceptor<D> {
    /// The request to read the register named `reg_name`, in either case.
    pub fn read_register(&self, reg_name: String) -> (result: Result<
        BackendRequest,
        CapabilityError,
    >)
        ensures
            request_view(result) == read_register_request(canonical(reg_name@)),
    {
        match resolve(reg_name.as_str()) {
            Ok(register) => Ok(BackendRequest::ReadRegister { register }),
            Err(_) => Err(CapabilityError::UnknownRegister),
        }
    }

    /// The request to write `value` to the register named `reg_name`, in
    /// either case.
    pub fn write_register(&self, reg_name: String, value: i64) -> (result: Result<
        BackendRequest,
        CapabilityError,
    >)
        ensures
            request_view(result) == write_register_request(canonical(reg_name@), value),
    {
        match resolve(reg_name.as_str()) {
            Ok(register) => {
                if value < 0 {
                    Err(CapabilityError::Value)
                } else {
                    Ok(BackendRequest::WriteRegister { register, value: value as u64 })
                }
            },
            Err(_) => Err(CapabilityError::UnknownRegister),
        }
    }

    /// The request to read `size` bytes of memory at `address`.
    pub fn read_memory(&self, address: i64, size: i64) -> (result: Result<
        BackendRequest,
        CapabilityError,
    >)
        ensures
            request_view(result) == read_memory_request(address, size),
    {
        if address < 0 {
            Err(CapabilityError::Address)
        } else if size < 0 || size as u64 > usize::MAX as u64 {
            Err(CapabilityError::Size)
        } else {
            Ok(BackendRequest::ReadMemory { address: address as u64, size: size as usize })
        }
    }

    /// The request to write `data` to memory at `address`.
    pub fn write_memory(&self, address: i64, data: Vec<u8>) -> (result: Result<
        BackendRequest,
        CapabilityError,
    >)
        ensures
            request_view(result) == write_memory_request(address, data@),
    {
        if address < 0 {
            Err(CapabilityError::Address)
        } else {
            Ok(BackendRequest::WriteMemory { address: address as u64, data })
        }
    }

    /// The request to continue execution at `addr`.
    pub fn set_pc(&self, addr: i64) -> (result: Result<BackendRequest, CapabilityError>)
        ensures
            request_view(result) == (if addr < 0 {
                Err::<BackendRequestView, CapabilityError>(CapabilityError::Address)
            } else {
                Ok::<BackendRequestView, CapabilityError>(
                    BackendRequestView::SetPc { address: addr as u64 },
                )
            }),
    {
        if addr < 0 {
            Err(CapabilityError::Address)
        } else {
            Ok(BackendRequest::SetPc { address: addr as u64 })
        }
    }

    /// The request to block the emulation thread for `millis` milliseconds.
    pub fn sleep(&self, millis: i64) -> (result: Result<BackendRequest, CapabilityError>)
        ensures
            request_view(result) == (if millis < 0 {
                Err::<BackendRequestView, CapabilityError>(CapabilityError::Duration)
            } else {
                Ok::<BackendRequestView, CapabilityError>(
                    BackendRequestView::Sleep { millis: millis as u64 },
                )
            }),
    {
        if millis < 0 {
            Err(CapabilityError::Duration)
        } else {
            Ok(BackendRequest::Sleep { millis: millis as u64 })
        }
    }

    /// The request to disassemble the `size` bytes of memory at `address`.
    pub fn disas(&self, address: i64, size: i64) -> (result: Result<
        BackendRequest,
        CapabilityError,
    >)
        ensures
            request_view(result) == disas_request(address, size),
    {
        if address < 0 {
            Err(CapabilityError::Address)
        } else if size < 0 || size > 0xFFFF_FFFF || size as u64 > usize::MAX as u64 {
            Err(CapabilityError::Size)
        } else {
            Ok(BackendRequest::Disassemble { address: address as u64, size: size as u32 })
        }
    }
}

} // verus!
