//! The planning side of the emulation handle: how a workflow description
//! becomes the sequence of steps that set the emulation backend up.
//!
//! Nothing here touches a backend. A start-up plan is a list of steps, in the
//! order in which they are to be carried out: the memory regions are mapped
//! first, then the image's sections are written, then the registers receive
//! their initial values. A workflow that cannot be carried out in full is
//! turned down as a whole, so that no backend is left half set up.

use crate::qecu::arch::tricore::{lookup, resolve, RegisterId};
use crate::utils::loader::{sections_view, CodeSection, CodeSectionView};
use crate::utils::text::{ascii_upper, canonical, chars_of, to_canonical};
use crate::utils::workflow::{
    mem_map_view, registers_view, Workflow, WorkflowMemMap, WorkflowMemMapView, WorkflowRegister,
    WorkflowRegisterView,
};
use vstd::prelude::*;
use vstd::utf8::is_ascii_chars;

verus! {

/// Why a workflow cannot be carried out.
#[derive(Clone, Copy, Debug, PartialEq, Eq, Structural)]
pub enum ConfigError {
    /// The flags of the memory region at index `region` grant no permission.
    NoPermissions { region: usize },
    /// The memory regions at indices `first` and `second` share an address.
    RegionsOverlap { first: usize, second: usize },
    /// The register named at index `index` is not in the catalogue.
    UnknownRegister { index: usize },
}

/// What may be done with the bytes of a memory region.
#[derive(Clone, Copy, Debug, PartialEq, Eq, Structural)]
pub struct Permission {
    pub read: bool,
    pub write: bool,
    pub execute: bool,
}

impl Permission {
    /// Nothing is permitted.
    pub open spec fn is_none(self) -> bool {
        !self.read && !self.write && !self.execute
    }

    /// Reading, writing and executing are all permitted.
    pub open spec fn is_all(self) -> bool {
        self.read && self.write && self.execute
    }
}

/// The permissions that a flag string in upper case grants: `R` grants
/// reading, `W` writing, `X` executing and `*` all three. Any other character
/// grants nothing.
pub open spec fn permissions_of(flags: Seq<char>) -> Permission {
    Permission {
        read: flags.contains('R') || flags.contains('*'),
        write: flags.contains('W') || flags.contains('*'),
        execute: flags.contains('X') || flags.contains('*'),
    }
}

/// The permissions that the flag characters `chars` grant.
fn fold_chars(chars: &Vec<char>) -> (permission: Permission)
    ensures
        permission == permissions_of(chars@),
{
    let mut permission = Permission { read: false, write: false, execute: false };
    let mut i: usize = 0;
    while i < chars.len()
        invariant
            0 <= i <= chars.len(),
            permission == permissions_of(chars@.take(i as int)),
        decreases chars.len() - i,
    {
        let c = chars[i];
        proof {
            let before = chars@.take(i as int);
            let after = chars@.take(i + 1);
            assert(after =~= before.push(c));
            assert forall|x: char| after.contains(x) <==> (before.contains(x) || x == c) by {
                if before.contains(x) {
                    let j = choose|j: int| 0 <= j < before.len() && before[j] == x;
                    assert(after[j] == x);
                }
                if x == c {
                    assert(after[i as int] == x);
                }
            }
        }
        if c == 'R' {
            permission.read = true;
        } else if c == 'W' {
            permission.write = true;
        } else if c == 'X' {
            permission.execute = true;
        } else if c == '*' {
            permission = Permission { read: true, write: true, execute: true };
        }
        i += 1;
    }
    proof {
        assert(chars@.take(i as int) =~= chars@);
    }
    permission
}

/// The permissions that the flag string `flags` grants; the flags are taken
/// as they stand, in upper case.
pub fn fold_permissions(flags: &str) -> (permission: Permission)
    ensures
        permission == permissions_of(flags@),
{
    let chars = chars_of(flags);
    fold_chars(&chars)
}

/// The permissions that the flag string `flags` grants, whatever the case of
/// its letters, or `None` where it grants nothing.
///
/// A region must never be mapped without permissions: a flag string that
/// grants nothing, empty or made of other characters, is a configuration
/// error for whoever asked for the region.
pub fn parse_permissions(flags: &str) -> (parsed: Option<Permission>)
    ensures
        parsed == granted(flags@),
{
    let upper = to_canonical(flags);
    let permission = fold_chars(&upper);
    if !permission.read && !permission.write && !permission.execute {
        None
    } else {
        Some(permission)
    }
}

/// What [`parse_permissions`] returns for `flags`.
pub open spec fn granted(flags: Seq<char>) -> Option<Permission> {
    let permission = permissions_of(canonical(flags));
    if permission.is_none() {
        None
    } else {
        Some(permission)
    }
}

/// Flag strings of ASCII characters that differ in the case of their letters
/// only grant the same permissions.
pub proof fn lemma_flags_ignore_ascii_case(a: Seq<char>, b: Seq<char>)
    requires
        is_ascii_chars(a),
        is_ascii_chars(b),
        ascii_upper(a) == ascii_upper(b),
    ensures
        granted(a) == granted(b),
{
}

/// A flag string with a `*` in it grants everything.
pub proof fn lemma_star_grants_all(flags: Seq<char>)
    requires
        canonical(flags).contains('*'),
    ensures
        granted(flags) matches Some(permission) && permission.is_all(),
{
}

/// A flag string grants nothing exactly when, in upper case, it holds none
/// of `R`, `W`, `X` and `*`; an empty one never grants anything.
pub proof fn lemma_granted_nothing(flags: Seq<char>)
    ensures
        granted(flags) is None <==> !(canonical(flags).contains('R') || canonical(flags).contains(
            'W',
        ) || canonical(flags).contains('X') || canonical(flags).contains('*')),
        granted(Seq::<char>::empty()) is None,
{
    assert(canonical(Seq::<char>::empty()) =~= Seq::<char>::empty());
}

/// A memory region as the backend is asked to map it.
#[derive(Clone, Copy, Debug, PartialEq, Eq, Structural)]
pub struct MemoryRegion {
    pub start: u64,
    pub size: u64,
    pub permissions: Permission,
}

/// Two regions of the memory map share at least one address.
pub open spec fn overlap(a: WorkflowMemMapView, b: WorkflowMemMapView) -> bool {
    a.from < b.from + b.size && b.from < a.from + a.size
}

/// The region at index `i` can be mapped once those before it are: its flags
/// grant a permission and it shares no address with an earlier region.
pub open spec fn region_ok(mem_map: Seq<WorkflowMemMapView>, i: int) -> bool {
    &&& granted(mem_map[i].flags) is Some
    &&& forall|j: int| 0 <= j < i ==> !overlap(#[trigger] mem_map[j], mem_map[i])
}

/// The region at index `i` as the backend is asked to map it.
pub open spec fn region_of(mem_map: Seq<WorkflowMemMapView>, i: int) -> MemoryRegion {
    MemoryRegion {
        start: mem_map[i].from,
        size: mem_map[i].size,
        permissions: permissions_of(canonical(mem_map[i].flags)),
    }
}

/// Every region of the memory map can be mapped.
pub open spec fn memory_map_ok(mem_map: Seq<WorkflowMemMapView>) -> bool {
    forall|i: int| 0 <= i < mem_map.len() ==> #[trigger] region_ok(mem_map, i)
}

/// The regions that the backend is asked to map, in the order of the memory
/// map.
pub open spec fn planned_regions(mem_map: Seq<WorkflowMemMapView>) -> Seq<MemoryRegion> {
    Seq::new(mem_map.len(), |i: int| region_of(mem_map, i))
}

/// `e` reports the first thing that is wrong with the memory map: the
/// regions before the one it names can all be mapped, and the one it names
/// either grants no permission or, granting one, overlaps an earlier region,
/// of which the first is named.
pub open spec fn first_region_fault(mem_map: Seq<WorkflowMemMapView>, e: ConfigError) -> bool {
    match e {
        ConfigError::NoPermissions { region } => {
            &&& region < mem_map.len()
            &&& forall|k: int| 0 <= k < region ==> #[trigger] region_ok(mem_map, k)
            &&& granted(mem_map[region as int].flags) is None
        },
        ConfigError::RegionsOverlap { first, second } => {
            &&& first < second < mem_map.len()
            &&& forall|k: int| 0 <= k < second ==> #[trigger] region_ok(mem_map, k)
            &&& granted(mem_map[second as int].flags) is Some
            &&& overlap(mem_map[first as int], mem_map[second as int])
            &&& forall|j: int|
                0 <= j < first ==> !overlap(#[trigger] mem_map[j], mem_map[second as int])
        },
        _ => false,
    }
}

/// A memory map with a fault cannot be mapped in full, and a memory map has
/// one first fault at most: the report of a memory map is the only one it
/// can have.
pub proof fn lemma_region_fault_unique(
    mem_map: Seq<WorkflowMemMapView>,
    e1: ConfigError,
    e2: ConfigError,
)
    requires
        first_region_fault(mem_map, e1),
        first_region_fault(mem_map, e2),
    ensures
        !memory_map_ok(mem_map),
        e1 == e2,
{
    let at1: int = match e1 {
        ConfigError::NoPermissions { region } => region as int,
        ConfigError::RegionsOverlap { first, second } => second as int,
        _ => 0,
    };
    let at2: int = match e2 {
        ConfigError::NoPermissions { region } => region as int,
        ConfigError::RegionsOverlap { first, second } => second as int,
        _ => 0,
    };
    assert(!region_ok(mem_map, at1)) by {
        if let ConfigError::RegionsOverlap { first, second } = e1 {
            assert(overlap(mem_map[first as int], mem_map[second as int]));
        }
    }
    assert(!region_ok(mem_map, at2)) by {
        if let ConfigError::RegionsOverlap { first, second } = e2 {
            assert(overlap(mem_map[first as int], mem_map[second as int]));
        }
    }
    assert(at1 == at2);
    if let ConfigError::RegionsOverlap { first, second } = e1 {
        if let ConfigError::RegionsOverlap { first: other, second: _ } = e2 {
            if first < other {
                assert(!overlap(mem_map[first as int], mem_map[at1]));
            }
            if other < first {
                assert(!overlap(mem_map[other as int], mem_map[at1]));
            }
        }
    }
}

/// Whether two regions of the memory map share at least one address.
fn regions_overlap(a: &WorkflowMemMap, b: &WorkflowMemMap) -> (overlapping: bool)
    ensures
        overlapping == overlap(a@, b@),
{
    let a_end: u128 = a.from as u128 + a.size as u128;
    let b_end: u128 = b.from as u128 + b.size as u128;
    (a.from as u128) < b_end && (b.from as u128) < a_end
}

/// The regions that the backend is asked to map, in the order of the memory
/// map, or the first thing that is wrong with the memory map.
///
/// A region whose flags grant no permission is turned down, and so is one
/// that shares an address with an earlier region: no mapping is ever
/// overwritten.
pub fn plan_memory_map(mem_map: &Vec<WorkflowMemMap>) -> (result: Result<
    Vec<MemoryRegion>,
    ConfigError,
>)
    ensures
        match result {
            Ok(regions) => {
                &&& memory_map_ok(mem_map_view(mem_map@))
                &&& regions@ == planned_regions(mem_map_view(mem_map@))
            },
            Err(e) => first_region_fault(mem_map_view(mem_map@), e),
        },
{
    let ghost views = mem_map_view(mem_map@);
    let mut regions: Vec<MemoryRegion> = Vec::new();
    let mut i: usize = 0;
    while i < mem_map.len()
        invariant
            views == mem_map_view(mem_map@),
            0 <= i <= mem_map.len(),
            regions@.len() == i,
            forall|k: int| 0 <= k < i ==> #[trigger] region_ok(views, k),
            forall|k: int| 0 <= k < i ==> #[trigger] regions@[k] == region_of(views, k),
        decreases mem_map.len() - i,
    {
        let entry = &mem_map[i];
        assert(views[i as int] == entry@);
        let permissions = match parse_permissions(entry.flags.as_str()) {
            Some(permissions) => permissions,
            None => {
                return Err(ConfigError::NoPermissions { region: i });
            },
        };
        let mut j: usize = 0;
        while j < i
            invariant
                views == mem_map_view(mem_map@),
                0 <= j <= i < mem_map.len(),
                entry@ == views[i as int],
                forall|k: int| 0 <= k < i ==> #[trigger] region_ok(views, k),
                granted(views[i as int].flags) is Some,
                forall|k: int| 0 <= k < j ==> !overlap(#[trigger] views[k], views[i as int]),
            decreases i - j,
        {
            assert(views[j as int] == mem_map@[j as int]@);
            if regions_overlap(&mem_map[j], entry) {
                return Err(ConfigError::RegionsOverlap { first: j, second: i });
            }
            j += 1;
        }
        regions.push(MemoryRegion { start: entry.from, size: entry.size, permissions });
        i += 1;
    }
    assert(regions@ =~= planned_regions(views));
    Ok(regions)
}

/// A register and the value it starts with.
#[derive(Clone, Copy, Debug, PartialEq, Eq, Structural)]
pub struct RegisterWrite {
    pub register: RegisterId,
    pub value: u64,
}

/// The register that the name at index `i` stands for, if it stands for one.
pub open spec fn register_at(registers: Seq<WorkflowRegisterView>, i: int) -> Option<RegisterId> {
    lookup(canonical(registers[i].name))
}

/// Every register named in the workflow is in the catalogue.
pub open spec fn registers_ok(registers: Seq<WorkflowRegisterView>) -> bool {
    forall|i: int| 0 <= i < registers.len() ==> #[trigger] register_at(registers, i) is Some
}

/// The initial register values with every name resolved, in the order of the
/// workflow.
pub open spec fn planned_writes(registers: Seq<WorkflowRegisterView>) -> Seq<RegisterWrite> {
    Seq::new(
        registers.len(),
        |i: int| RegisterWrite { register: register_at(registers, i)->0, value: registers[i].value },
    )
}

/// `e` names the first register of the workflow that the catalogue does not
/// hold.
pub open spec fn first_unknown_register(registers: Seq<WorkflowRegisterView>, e: ConfigError)
    -> bool {
    match e {
        ConfigError::UnknownRegister { index } => {
            &&& index < registers.len()
            &&& register_at(registers, index as int) is None
            &&& forall|k: int| 0 <= k < index ==> #[trigger] register_at(registers, k) is Some
        },
        _ => false,
    }
}

/// The initial register values with every name resolved, in the order of the
/// workflow, or the index of the first name that the catalogue does not hold.
/// An unknown name never stands for some register.
pub fn plan_registers(registers: &Vec<WorkflowRegister>) -> (result: Result<
    Vec<RegisterWrite>,
    ConfigError,
>)
    ensures
        match result {
            Ok(writes) => {
                &&& registers_ok(registers_view(registers@))
                &&& writes@ == planned_writes(registers_view(registers@))
            },
            Err(e) => first_unknown_register(registers_view(registers@), e),
        },
{
    let ghost views = registers_view(registers@);
    let mut writes: Vec<RegisterWrite> = Vec::new();
    let mut i: usize = 0;
    while i < registers.len()
        invariant
            views == registers_view(registers@),
            0 <= i <= registers.len(),
            writes@.len() == i,
            forall|k: int| 0 <= k < i ==> #[trigger] register_at(views, k) is Some,
            forall|k: int| 0 <= k < i ==> #[trigger] writes@[k] == planned_writes(views)[k],
        decreases registers.len() - i,
    {
        let entry = &registers[i];
        assert(views[i as int] == entry@);
        match resolve(entry.name.as_str()) {
            Ok(register) => {
                writes.push(RegisterWrite { register, value: entry.value });
            },
            Err(_) => {
                return Err(ConfigError::UnknownRegister { index: i });
            },
        }
        i += 1;
    }
    assert(writes@ =~= planned_writes(views));
    Ok(writes)
}

/// One step of setting the emulation backend up.
#[derive(Clone, Debug, PartialEq, Eq)]
pub enum BootStep {
    /// Map a memory region with its permissions.
    MapMemory(MemoryRegion),
    /// Write `data` to memory, starting at `address`.
    WriteMemory { address: u64, data: Vec<u8> },
    /// Give a register its initial value.
    WriteRegister(RegisterWrite),
}

/// The mathematical value of a [`BootStep`].
pub enum BootStepView {
    MapMemory(MemoryRegion),
    WriteMemory { address: u64, data: Seq<u8> },
    WriteRegister(RegisterWrite),
}

impl View for BootStep {
    type V = BootStepView;

    open spec fn view(&self) -> BootStepView {
        match self {
            BootStep::MapMemory(region) => BootStepView::MapMemory(*region),
            BootStep::WriteMemory { address, data } => BootStepView::WriteMemory {
                address: *address,
                data: data@,
            },
            BootStep::WriteRegister(write) => BootStepView::WriteRegister(*write),
        }
    }
}

/// The views of a list of steps.
pub open spec fn steps_view(steps: Seq<BootStep>) -> Seq<BootStepView> {
    steps.map_values(|s: BootStep| s@)
}

/// The steps that set a backend up, in the order in which they are carried
/// out: every region is mapped, then every section is written at its
/// address, then every register receives its value.
pub open spec fn boot_steps(
    regions: Seq<MemoryRegion>,
    sections: Seq<CodeSectionView>,
    writes: Seq<RegisterWrite>,
) -> Seq<BootStepView> {
    regions.map_values(|r: MemoryRegion| BootStepView::MapMemory(r)) + sections.map_values(
        |s: CodeSectionView| BootStepView::WriteMemory { address: s.address, data: s.data },
    ) + writes.map_values(|w: RegisterWrite| BootStepView::WriteRegister(w))
}

/// The steps that set a backend up for `workflow`, with `sections` being
/// what was loaded from the workflow's image.
///
/// The plan is made only if the whole workflow can be carried out. The
/// memory map is looked at first: its first fault is reported. Where the
/// memory map is in order, the first register that the catalogue does not
/// hold is reported.
pub fn boot_plan(workflow: &Workflow, sections: Vec<CodeSection>) -> (result: Result<
    Vec<BootStep>,
    ConfigError,
>)
    ensures
        match result {
            Ok(steps) => {
                &&& memory_map_ok(mem_map_view(workflow.mem_map@))
                &&& registers_ok(registers_view(workflow.registers@))
                &&& steps_view(steps@) == boot_steps(
                    planned_regions(mem_map_view(workflow.mem_map@)),
                    sections_view(sections@),
                    planned_writes(registers_view(workflow.registers@)),
                )
            },
            Err(e) => {
                ||| first_region_fault(mem_map_view(workflow.mem_map@), e)
                ||| (memory_map_ok(mem_map_view(workflow.mem_map@)) && first_unknown_register(
                    registers_view(workflow.registers@),
                    e,
                ))
            },
        },
{
    let regions = match plan_memory_map(&workflow.mem_map) {
        Ok(regions) => regions,
        Err(e) => {
            return Err(e);
        },
    };
    let writes = match plan_registers(&workflow.registers) {
        Ok(writes) => writes,
        Err(e) => {
            return Err(e);
        },
    };
    let ghost map_steps = regions@.map_values(|r: MemoryRegion| BootStepView::MapMemory(r));
    let ghost section_steps = sections_view(sections@).map_values(
        |s: CodeSectionView| BootStepView::WriteMemory { address: s.address, data: s.data },
    );
    let ghost write_steps = writes@.map_values(|w: RegisterWrite| BootStepView::WriteRegister(w));
    let mut steps: Vec<BootStep> = Vec::new();
    let mut i: usize = 0;
    while i < regions.len()
        invariant
            0 <= i <= regions.len(),
            map_steps == regions@.map_values(|r: MemoryRegion| BootStepView::MapMemory(r)),
            steps_view(steps@) == map_steps.take(i as int),
        decreases regions.len() - i,
    {
        let ghost old_steps = steps@;
        let step = BootStep::MapMemory(regions[i]);
        steps.push(step);
        proof {
            assert(steps_view(steps@) =~= steps_view(old_steps).push(step@));
            assert(map_steps.take(i + 1) =~= map_steps.take(i as int).push(step@));
        }
        i += 1;
    }
    assert(steps_view(steps@) =~= map_steps);
    let ghost all_sections = sections@;
    for section in it: sections
        invariant
            it.seq() == all_sections,
            section_steps == sections_view(all_sections).map_values(
                |s: CodeSectionView| BootStepView::WriteMemory { address: s.address, data: s.data },
            ),
            steps_view(steps@) == map_steps + section_steps.take(it.index() as int),
    {
        let ghost old_steps = steps@;
        let step = BootStep::WriteMemory { address: section.address, data: section.data };
        steps.push(step);
        proof {
            assert(steps_view(steps@) =~= steps_view(old_steps).push(step@));
            assert(section_steps.take(it.index() + 1) =~= section_steps.take(
                it.index() as int,
            ).push(step@));
        }
    }
    assert(steps_view(steps@) =~= map_steps + section_steps);
    let mut k: usize = 0;
    while k < writes.len()
        invariant
            0 <= k <= writes.len(),
            write_steps == writes@.map_values(|w: RegisterWrite| BootStepView::WriteRegister(w)),
            steps_view(steps@) == map_steps + section_steps + write_steps.take(k as int),
        decreases writes.len() - k,
    {
        let ghost old_steps = steps@;
        let step = BootStep::WriteRegister(writes[k]);
        steps.push(step);
        proof {
            assert(steps_view(steps@) =~= steps_view(old_steps).push(step@));
            assert(write_steps.take(k + 1) =~= write_steps.take(k as int).push(step@));
        }
        k += 1;
    }
    assert(steps_view(steps@) =~= map_steps + section_steps + write_steps);
    Ok(steps)
}

} // verus!
