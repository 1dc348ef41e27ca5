//! The workflow description: what to load, how memory is laid out, which
//! registers start with which values, and which script sets the hooks up.

use crate::utils::text::str_equal;
use vstd::prelude::*;

verus! {

/// The image to load.
#[derive(Clone, Debug, PartialEq, Eq)]
pub struct WorkflowInput {
    /// The container format of the image; `"elf"` is the one supported.
    pub format: String,
    pub path: String,
}

/// One region of the memory map.
#[derive(Clone, Debug, PartialEq, Eq)]
pub struct WorkflowMemMap {
    /// First address of the region.
    pub from: u64,
    /// Size of the region in bytes.
    pub size: u64,
    /// Permission flags: any of `R`, `W`, `X` and `*`, in either case.
    pub flags: String,
}

/// The mathematical value of a [`WorkflowMemMap`].
pub struct WorkflowMemMapView {
    pub from: u64,
    pub size: u64,
    pub flags: Seq<char>,
}

impl View for WorkflowMemMap {
    type V = WorkflowMemMapView;

    open spec fn view(&self) -> WorkflowMemMapView {
        WorkflowMemMapView { from: self.from, size: self.size, flags: self.flags@ }
    }
}

/// The initial value of one register.
#[derive(Clone, Debug, PartialEq, Eq)]
pub struct WorkflowRegister {
    pub name: String,
    pub value: u64,
}

/// The mathematical value of a [`WorkflowRegister`].
pub struct WorkflowRegisterView {
    pub name: Seq<char>,
    pub value: u64,
}

impl View for WorkflowRegister {
    type V = WorkflowRegisterView;

    open spec fn view(&self) -> WorkflowRegisterView {
        WorkflowRegisterView { name: self.name@, value: self.value }
    }
}

/// The bounds of a run of the emulation.
#[derive(Clone, Copy, Debug, PartialEq, Eq, Structural)]
pub struct WorkflowBoot {
    /// Address of the first instruction to execute.
    pub begin: u64,
    /// Address at which execution stops.
    pub until: u64,
    /// Time limit in microseconds; 0 sets none.
    pub timeout: u64,
    /// Limit on the number of instructions; 0 sets none.
    pub count: u64,
}

/// The address at which a TriCore core starts executing after reset.
pub const RESET_VECTOR: u64 = 0x8000_3d10;

/// The last address of the 32-bit address space.
pub const ADDRESS_SPACE_END: u64 = 0xFFFF_FFFF;

impl WorkflowBoot {
    /// A run from the reset vector with open-ended bounds: up to the end of
    /// the address space, with no limit on time or on instructions.
    pub fn from_reset() -> (boot: WorkflowBoot)
        ensures
            boot == (WorkflowBoot {
                begin: RESET_VECTOR,
                until: ADDRESS_SPACE_END,
                timeout: 0,
                count: 0,
            }),
    {
        WorkflowBoot { begin: RESET_VECTOR, until: ADDRESS_SPACE_END, timeout: 0, count: 0 }
    }
}

/// A whole workflow description.
#[derive(Clone, Debug, PartialEq, Eq)]
pub struct Workflow {
    pub project: String,
    pub input: WorkflowInput,
    pub mem_map: Vec<WorkflowMemMap>,
    pub registers: Vec<WorkflowRegister>,
    /// Path of the script that registers hooks and event callbacks.
    pub init_script: String,
    /// Path of the disassembler's language data.
    pub sleigh_path: String,
}

/// Whether images in the container format `format` can be loaded.
pub open spec fn format_supported(format: Seq<char>) -> bool {
    format == "elf"@
}

/// Whether images in the container format `format` can be loaded.
pub fn is_supported_format(format: &str) -> (supported: bool)
    ensures
        supported == format_supported(format@),
{
    str_equal(format, "elf")
}

/// The views of a memory map.
pub open spec fn mem_map_view(mem_map: Seq<WorkflowMemMap>) -> Seq<WorkflowMemMapView> {
    mem_map.map_values(|m: WorkflowMemMap| m@)
}

/// The views of a list of initial register values.
pub open spec fn registers_view(registers: Seq<WorkflowRegister>) -> Seq<WorkflowRegisterView> {
    registers.map_values(|r: WorkflowRegister| r@)
}

} // verus!
