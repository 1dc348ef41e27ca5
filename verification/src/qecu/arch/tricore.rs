//! The register catalogue of the TriCore architecture: the sixteen address
//! registers, the sixteen data registers and the core special registers, each
//! under its upper-case name.

use crate::utils::text::{
    ascii_upper, canonical, chars_of, str_equal, str_equals_chars, to_canonical,
};
use vstd::prelude::*;
use vstd::utf8::is_ascii_chars;

verus! {

/// A register of the TriCore core.
#[allow(non_camel_case_types)]
#[derive(Clone, Copy, Debug, PartialEq, Eq, Hash, Structural)]
pub enum RegisterId {
    /// General-purpose address registers.
    A0,
    A1,
    A2,
    A3,
    A4,
    A5,
    A6,
    A7,
    A8,
    A9,
    A10,
    A11,
    A12,
    A13,
    A14,
    A15,
    /// General-purpose data registers.
    D0,
    D1,
    D2,
    D3,
    D4,
    D5,
    D6,
    D7,
    D8,
    D9,
    D10,
    D11,
    D12,
    D13,
    D14,
    D15,
    /// Previous context information.
    PCXI,
    /// Program status word.
    PSW,
    /// Program counter.
    PC,
    /// System configuration.
    SYSCON,
    /// CPU identification.
    CPU_ID,
    /// Base of the interrupt vector table.
    BIV,
    /// Base of the trap vector table.
    BTV,
    /// Interrupt stack pointer.
    ISP,
    /// Interrupt control.
    ICR,
    /// Head of the free context-save-area list.
    FCX,
    /// Limit of the free context-save-area list.
    LCX,
}

/// A register name that the catalogue does not hold.
#[derive(Clone, Debug, PartialEq, Eq)]
pub struct RegisterResolutionError {
    /// The name as it was asked for.
    pub name: String,
}

impl RegisterId {
    /// The register's name in the catalogue, in upper case.
    pub open spec fn spec_name(self) -> Seq<char> {
        match self {
            RegisterId::A0 => "A0"@,
            RegisterId::A1 => "A1"@,
            RegisterId::A2 => "A2"@,
            RegisterId::A3 => "A3"@,
            RegisterId::A4 => "A4"@,
            RegisterId::A5 => "A5"@,
            RegisterId::A6 => "A6"@,
            RegisterId::A7 => "A7"@,
            RegisterId::A8 => "A8"@,
            RegisterId::A9 => "A9"@,
            RegisterId::A10 => "A10"@,
            RegisterId::A11 => "A11"@,
            RegisterId::A12 => "A12"@,
            RegisterId::A13 => "A13"@,
            RegisterId::A14 => "A14"@,
            RegisterId::A15 => "A15"@,
            RegisterId::D0 => "D0"@,
            RegisterId::D1 => "D1"@,
            RegisterId::D2 => "D2"@,
            RegisterId::D3 => "D3"@,
            RegisterId::D4 => "D4"@,
            RegisterId::D5 => "D5"@,
            RegisterId::D6 => "D6"@,
            RegisterId::D7 => "D7"@,
            RegisterId::D8 => "D8"@,
            RegisterId::D9 => "D9"@,
            RegisterId::D10 => "D10"@,
            RegisterId::D11 => "D11"@,
            RegisterId::D12 => "D12"@,
            RegisterId::D13 => "D13"@,
            RegisterId::D14 => "D14"@,
            RegisterId::D15 => "D15"@,
            RegisterId::PCXI => "PCXI"@,
            RegisterId::PSW => "PSW"@,
            RegisterId::PC => "PC"@,
            RegisterId::SYSCON => "SYSCON"@,
            RegisterId::CPU_ID => "CPU_ID"@,
            RegisterId::BIV => "BIV"@,
            RegisterId::BTV => "BTV"@,
            RegisterId::ISP => "ISP"@,
            RegisterId::ICR => "ICR"@,
            RegisterId::FCX => "FCX"@,
            RegisterId::LCX => "LCX"@,
        }
    }

    /// The register's name in the catalogue, in upper case.
    pub fn name(self) -> (name: &'static str)
        ensures
            name@ == self.spec_name(),
    {
        match self {
            RegisterId::A0 => "A0",
            RegisterId::A1 => "A1",
            RegisterId::A2 => "A2",
            RegisterId::A3 => "A3",
            RegisterId::A4 => "A4",
            RegisterId::A5 => "A5",
            RegisterId::A6 => "A6",
            RegisterId::A7 => "A7",
            RegisterId::A8 => "A8",
            RegisterId::A9 => "A9",
            RegisterId::A10 => "A10",
            RegisterId::A11 => "A11",
            RegisterId::A12 => "A12",
            RegisterId::A13 => "A13",
            RegisterId::A14 => "A14",
            RegisterId::A15 => "A15",
            RegisterId::D0 => "D0",
            RegisterId::D1 => "D1",
            RegisterId::D2 => "D2",
            RegisterId::D3 => "D3",
            RegisterId::D4 => "D4",
            RegisterId::D5 => "D5",
            RegisterId::D6 => "D6",
            RegisterId::D7 => "D7",
            RegisterId::D8 => "D8",
            RegisterId::D9 => "D9",
            RegisterId::D10 => "D10",
            RegisterId::D11 => "D11",
            RegisterId::D12 => "D12",
            RegisterId::D13 => "D13",
            RegisterId::D14 => "D14",
            RegisterId::D15 => "D15",
            RegisterId::PCXI => "PCXI",
            RegisterId::PSW => "PSW",
            RegisterId::PC => "PC",
            RegisterId::SYSCON => "SYSCON",
            RegisterId::CPU_ID => "CPU_ID",
            RegisterId::BIV => "BIV",
            RegisterId::BTV => "BTV",
            RegisterId::ISP => "ISP",
            RegisterId::ICR => "ICR",
            RegisterId::FCX => "FCX",
            RegisterId::LCX => "LCX",
        }
    }

    /// The register's offset in the core's register space.
    pub open spec fn spec_offset(self) -> u32 {
        match self {
            RegisterId::A0 => 0xFF80,
            RegisterId::A1 => 0xFF84,
            RegisterId::A2 => 0xFF88,
            RegisterId::A3 => 0xFF8C,
            RegisterId::A4 => 0xFF90,
            RegisterId::A5 => 0xFF94,
            RegisterId::A6 => 0xFF98,
            RegisterId::A7 => 0xFF9C,
            RegisterId::A8 => 0xFFA0,
            RegisterId::A9 => 0xFFA4,
            RegisterId::A10 => 0xFFA8,
            RegisterId::A11 => 0xFFAC,
            RegisterId::A12 => 0xFFB0,
            RegisterId::A13 => 0xFFB4,
            RegisterId::A14 => 0xFFB8,
            RegisterId::A15 => 0xFFBC,
            RegisterId::D0 => 0xFF00,
            RegisterId::D1 => 0xFF04,
            RegisterId::D2 => 0xFF08,
            RegisterId::D3 => 0xFF0C,
            RegisterId::D4 => 0xFF10,
            RegisterId::D5 => 0xFF14,
            RegisterId::D6 => 0xFF18,
            RegisterId::D7 => 0xFF1C,
            RegisterId::D8 => 0xFF20,
            RegisterId::D9 => 0xFF24,
            RegisterId::D10 => 0xFF28,
            RegisterId::D11 => 0xFF2C,
            RegisterId::D12 => 0xFF30,
            RegisterId::D13 => 0xFF34,
            RegisterId::D14 => 0xFF38,
            RegisterId::D15 => 0xFF3C,
            RegisterId::PCXI => 0xFE00,
            RegisterId::PSW => 0xFE04,
            RegisterId::PC => 0xFE08,
            RegisterId::SYSCON => 0xFE14,
            RegisterId::CPU_ID => 0xFE18,
            RegisterId::BIV => 0xFE20,
            RegisterId::BTV => 0xFE24,
            RegisterId::ISP => 0xFE28,
            RegisterId::ICR => 0xFE2C,
            RegisterId::FCX => 0xFE38,
            RegisterId::LCX => 0xFE3C,
        }
    }

    /// The register's offset in the core's register space.
    pub fn offset(self) -> (offset: u32)
        ensures
            offset == self.spec_offset(),
    {
        match self {
            RegisterId::A0 => 0xFF80,
            RegisterId::A1 => 0xFF84,
            RegisterId::A2 => 0xFF88,
            RegisterId::A3 => 0xFF8C,
            RegisterId::A4 => 0xFF90,
            RegisterId::A5 => 0xFF94,
            RegisterId::A6 => 0xFF98,
            RegisterId::A7 => 0xFF9C,
            RegisterId::A8 => 0xFFA0,
            RegisterId::A9 => 0xFFA4,
            RegisterId::A10 => 0xFFA8,
            RegisterId::A11 => 0xFFAC,
            RegisterId::A12 => 0xFFB0,
            RegisterId::A13 => 0xFFB4,
            RegisterId::A14 => 0xFFB8,
            RegisterId::A15 => 0xFFBC,
            RegisterId::D0 => 0xFF00,
            RegisterId::D1 => 0xFF04,
            RegisterId::D2 => 0xFF08,
            RegisterId::D3 => 0xFF0C,
            RegisterId::D4 => 0xFF10,
            RegisterId::D5 => 0xFF14,
            RegisterId::D6 => 0xFF18,
            RegisterId::D7 => 0xFF1C,
            RegisterId::D8 => 0xFF20,
            RegisterId::D9 => 0xFF24,
            RegisterId::D10 => 0xFF28,
            RegisterId::D11 => 0xFF2C,
            RegisterId::D12 => 0xFF30,
            RegisterId::D13 => 0xFF34,
            RegisterId::D14 => 0xFF38,
            RegisterId::D15 => 0xFF3C,
            RegisterId::PCXI => 0xFE00,
            RegisterId::PSW => 0xFE04,
            RegisterId::PC => 0xFE08,
            RegisterId::SYSCON => 0xFE14,
            RegisterId::CPU_ID => 0xFE18,
            RegisterId::BIV => 0xFE20,
            RegisterId::BTV => 0xFE24,
            RegisterId::ISP => 0xFE28,
            RegisterId::ICR => 0xFE2C,
            RegisterId::FCX => 0xFE38,
            RegisterId::LCX => 0xFE3C,
        }
    }
}

/// Every register of the catalogue, address registers first, then data
/// registers, then the special registers.
pub open spec fn catalog_spec() -> Seq<RegisterId> {
    seq![
        RegisterId::A0,
        RegisterId::A1,
        RegisterId::A2,
        RegisterId::A3,
        RegisterId::A4,
        RegisterId::A5,
        RegisterId::A6,
        RegisterId::A7,
        RegisterId::A8,
        RegisterId::A9,
        RegisterId::A10,
        RegisterId::A11,
        RegisterId::A12,
        RegisterId::A13,
        RegisterId::A14,
        RegisterId::A15,
        RegisterId::D0,
        RegisterId::D1,
        RegisterId::D2,
        RegisterId::D3,
        RegisterId::D4,
        RegisterId::D5,
        RegisterId::D6,
        RegisterId::D7,
        RegisterId::D8,
        RegisterId::D9,
        RegisterId::D10,
        RegisterId::D11,
        RegisterId::D12,
        RegisterId::D13,
        RegisterId::D14,
        RegisterId::D15,
        RegisterId::PCXI,
        RegisterId::PSW,
        RegisterId::PC,
        RegisterId::SYSCON,
        RegisterId::CPU_ID,
        RegisterId::BIV,
        RegisterId::BTV,
        RegisterId::ISP,
        RegisterId::ICR,
        RegisterId::FCX,
        RegisterId::LCX,
    ]
}

/// Every register of the catalogue.
pub fn catalog() -> (all: Vec<RegisterId>)
    ensures
        all@ == catalog_spec(),
{
    let all = vec![
        RegisterId::A0,
        RegisterId::A1,
        RegisterId::A2,
        RegisterId::A3,
        RegisterId::A4,
        RegisterId::A5,
        RegisterId::A6,
        RegisterId::A7,
        RegisterId::A8,
        RegisterId::A9,
        RegisterId::A10,
        RegisterId::A11,
        RegisterId::A12,
        RegisterId::A13,
        RegisterId::A14,
        RegisterId::A15,
        RegisterId::D0,
        RegisterId::D1,
        RegisterId::D2,
        RegisterId::D3,
        RegisterId::D4,
        RegisterId::D5,
        RegisterId::D6,
        RegisterId::D7,
        RegisterId::D8,
        RegisterId::D9,
        RegisterId::D10,
        RegisterId::D11,
        RegisterId::D12,
        RegisterId::D13,
        RegisterId::D14,
        RegisterId::D15,
        RegisterId::PCXI,
        RegisterId::PSW,
        RegisterId::PC,
        RegisterId::SYSCON,
        RegisterId::CPU_ID,
        RegisterId::BIV,
        RegisterId::BTV,
        RegisterId::ISP,
        RegisterId::ICR,
        RegisterId::FCX,
        RegisterId::LCX,
    ];
    assert(all@ =~= catalog_spec());
    all
}

/// The catalogue leaves no register out.
pub proof fn lemma_catalog_complete(register: RegisterId)
    ensures
        catalog_spec().contains(register),
{
    match register {
        RegisterId::A0 => assert(catalog_spec()[0] == register),
        RegisterId::A1 => assert(catalog_spec()[1] == register),
        RegisterId::A2 => assert(catalog_spec()[2] == register),
        RegisterId::A3 => assert(catalog_spec()[3] == register),
        RegisterId::A4 => assert(catalog_spec()[4] == register),
        RegisterId::A5 => assert(catalog_spec()[5] == register),
        RegisterId::A6 => assert(catalog_spec()[6] == register),
        RegisterId::A7 => assert(catalog_spec()[7] == register),
        RegisterId::A8 => assert(catalog_spec()[8] == register),
        RegisterId::A9 => assert(catalog_spec()[9] == register),
        RegisterId::A10 => assert(catalog_spec()[10] == register),
        RegisterId::A11 => assert(catalog_spec()[11] == register),
        RegisterId::A12 => assert(catalog_spec()[12] == register),
        RegisterId::A13 => assert(catalog_spec()[13] == register),
        RegisterId::A14 => assert(catalog_spec()[14] == register),
        RegisterId::A15 => assert(catalog_spec()[15] == register),
        RegisterId::D0 => assert(catalog_spec()[16] == register),
        RegisterId::D1 => assert(catalog_spec()[17] == register),
        RegisterId::D2 => assert(catalog_spec()[18] == register),
        RegisterId::D3 => assert(catalog_spec()[19] == register),
        RegisterId::D4 => assert(catalog_spec()[20] == register),
        RegisterId::D5 => assert(catalog_spec()[21] == register),
        RegisterId::D6 => assert(catalog_spec()[22] == register),
        RegisterId::D7 => assert(catalog_spec()[23] == register),
        RegisterId::D8 => assert(catalog_spec()[24] == register),
        RegisterId::D9 => assert(catalog_spec()[25] == register),
        RegisterId::D10 => assert(catalog_spec()[26] == register),
        RegisterId::D11 => assert(catalog_spec()[27] == register),
        RegisterId::D12 => assert(catalog_spec()[28] == register),
        RegisterId::D13 => assert(catalog_spec()[29] == register),
        RegisterId::D14 => assert(catalog_spec()[30] == register),
        RegisterId::D15 => assert(catalog_spec()[31] == register),
        RegisterId::PCXI => assert(catalog_spec()[32] == register),
        RegisterId::PSW => assert(catalog_spec()[33] == register),
        RegisterId::PC => assert(catalog_spec()[34] == register),
        RegisterId::SYSCON => assert(catalog_spec()[35] == register),
        RegisterId::CPU_ID => assert(catalog_spec()[36] == register),
        RegisterId::BIV => assert(catalog_spec()[37] == register),
        RegisterId::BTV => assert(catalog_spec()[38] == register),
        RegisterId::ISP => assert(catalog_spec()[39] == register),
        RegisterId::ICR => assert(catalog_spec()[40] == register),
        RegisterId::FCX => assert(catalog_spec()[41] == register),
        RegisterId::LCX => assert(catalog_spec()[42] == register),
    }
}

/// What tells the catalogue's names apart: a name's length and its first
/// three characters.
pub open spec fn name_key(name: Seq<char>) -> (nat, char, char, char) {
    (
        name.len(),
        if name.len() > 0 {
            name[0]
        } else {
            ' '
        },
        if name.len() > 1 {
            name[1]
        } else {
            ' '
        },
        if name.len() > 2 {
            name[2]
        } else {
            ' '
        },
    )
}

/// The key of each register's name.
pub open spec fn register_key(register: RegisterId) -> (nat, char, char, char) {
    match register {
        RegisterId::A0 => (2, 'A', '0', ' '),
        RegisterId::A1 => (2, 'A', '1', ' '),
        RegisterId::A2 => (2, 'A', '2', ' '),
        RegisterId::A3 => (2, 'A', '3', ' '),
        RegisterId::A4 => (2, 'A', '4', ' '),
        RegisterId::A5 => (2, 'A', '5', ' '),
        RegisterId::A6 => (2, 'A', '6', ' '),
        RegisterId::A7 => (2, 'A', '7', ' '),
        RegisterId::A8 => (2, 'A', '8', ' '),
        RegisterId::A9 => (2, 'A', '9', ' '),
        RegisterId::A10 => (3, 'A', '1', '0'),
        RegisterId::A11 => (3, 'A', '1', '1'),
        RegisterId::A12 => (3, 'A', '1', '2'),
        RegisterId::A13 => (3, 'A', '1', '3'),
        RegisterId::A14 => (3, 'A', '1', '4'),
        RegisterId::A15 => (3, 'A', '1', '5'),
        RegisterId::D0 => (2, 'D', '0', ' '),
        RegisterId::D1 => (2, 'D', '1', ' '),
        RegisterId::D2 => (2, 'D', '2', ' '),
        RegisterId::D3 => (2, 'D', '3', ' '),
        RegisterId::D4 => (2, 'D', '4', ' '),
        RegisterId::D5 => (2, 'D', '5', ' '),
        RegisterId::D6 => (2, 'D', '6', ' '),
        RegisterId::D7 => (2, 'D', '7', ' '),
        RegisterId::D8 => (2, 'D', '8', ' '),
        RegisterId::D9 => (2, 'D', '9', ' '),
        RegisterId::D10 => (3, 'D', '1', '0'),
        RegisterId::D11 => (3, 'D', '1', '1'),
        RegisterId::D12 => (3, 'D', '1', '2'),
        RegisterId::D13 => (3, 'D', '1', '3'),
        RegisterId::D14 => (3, 'D', '1', '4'),
        RegisterId::D15 => (3, 'D', '1', '5'),
        RegisterId::PCXI => (4, 'P', 'C', 'X'),
        RegisterId::PSW => (3, 'P', 'S', 'W'),
        RegisterId::PC => (2, 'P', 'C', ' '),
        RegisterId::SYSCON => (6, 'S', 'Y', 'S'),
        RegisterId::CPU_ID => (6, 'C', 'P', 'U'),
        RegisterId::BIV => (3, 'B', 'I', 'V'),
        RegisterId::BTV => (3, 'B', 'T', 'V'),
        RegisterId::ISP => (3, 'I', 'S', 'P'),
        RegisterId::ICR => (3, 'I', 'C', 'R'),
        RegisterId::FCX => (3, 'F', 'C', 'X'),
        RegisterId::LCX => (3, 'L', 'C', 'X'),
    }
}

proof fn lemma_register_key(register: RegisterId)
    ensures
        name_key(register.spec_name()) == register_key(register),
{
    match register {
        RegisterId::A0 => reveal_strlit("A0"),
        RegisterId::A1 => reveal_strlit("A1"),
        RegisterId::A2 => reveal_strlit("A2"),
        RegisterId::A3 => reveal_strlit("A3"),
        RegisterId::A4 => reveal_strlit("A4"),
        RegisterId::A5 => reveal_strlit("A5"),
        RegisterId::A6 => reveal_strlit("A6"),
        RegisterId::A7 => reveal_strlit("A7"),
        RegisterId::A8 => reveal_strlit("A8"),
        RegisterId::A9 => reveal_strlit("A9"),
        RegisterId::A10 => reveal_strlit("A10"),
        RegisterId::A11 => reveal_strlit("A11"),
        RegisterId::A12 => reveal_strlit("A12"),
        RegisterId::A13 => reveal_strlit("A13"),
        RegisterId::A14 => reveal_strlit("A14"),
        RegisterId::A15 => reveal_strlit("A15"),
        RegisterId::D0 => reveal_strlit("D0"),
        RegisterId::D1 => reveal_strlit("D1"),
        RegisterId::D2 => reveal_strlit("D2"),
        RegisterId::D3 => reveal_strlit("D3"),
        RegisterId::D4 => reveal_strlit("D4"),
        RegisterId::D5 => reveal_strlit("D5"),
        RegisterId::D6 => reveal_strlit("D6"),
        RegisterId::D7 => reveal_strlit("D7"),
        RegisterId::D8 => reveal_strlit("D8"),
        RegisterId::D9 => reveal_strlit("D9"),
        RegisterId::D10 => reveal_strlit("D10"),
        RegisterId::D11 => reveal_strlit("D11"),
        RegisterId::D12 => reveal_strlit("D12"),
        RegisterId::D13 => reveal_strlit("D13"),
        RegisterId::D14 => reveal_strlit("D14"),
        RegisterId::D15 => reveal_strlit("D15"),
        RegisterId::PCXI => reveal_strlit("PCXI"),
        RegisterId::PSW => reveal_strlit("PSW"),
        RegisterId::PC => reveal_strlit("PC"),
        RegisterId::SYSCON => reveal_strlit("SYSCON"),
        RegisterId::CPU_ID => reveal_strlit("CPU_ID"),
        RegisterId::BIV => reveal_strlit("BIV"),
        RegisterId::BTV => reveal_strlit("BTV"),
        RegisterId::ISP => reveal_strlit("ISP"),
        RegisterId::ICR => reveal_strlit("ICR"),
        RegisterId::FCX => reveal_strlit("FCX"),
        RegisterId::LCX => reveal_strlit("LCX"),
    }
}

/// No two registers share a name: a name stands for one register on every
/// lookup.
pub proof fn lemma_names_differ(a: RegisterId, b: RegisterId)
    requires
        a != b,
    ensures
        a.spec_name() != b.spec_name(),
{
    lemma_register_key(a);
    lemma_register_key(b);
}

/// The register whose catalogue name is `canonical`, if there is one.
pub open spec fn lookup(canonical: Seq<char>) -> Option<RegisterId> {
    if exists|register: RegisterId| register.spec_name() == canonical {
        Some(choose|register: RegisterId| register.spec_name() == canonical)
    } else {
        None
    }
}

/// Looking a register's own name up gives that register back.
pub proof fn lemma_lookup_own_name(register: RegisterId)
    ensures
        lookup(register.spec_name()) == Some(register),
{
    let found = choose|found: RegisterId| found.spec_name() == register.spec_name();
    if found != register {
        lemma_names_differ(found, register);
    }
}

/// The register whose catalogue name is made of exactly the characters
/// `name`.
fn find(name: &Vec<char>) -> (found: Option<RegisterId>)
    ensures
        found == lookup(name@),
{
    let all = catalog();
    let mut i: usize = 0;
    while i < all.len()
        invariant
            all@ == catalog_spec(),
            0 <= i <= all.len(),
            forall|j: int| 0 <= j < i ==> (#[trigger] all@[j]).spec_name() != name@,
        decreases all.len() - i,
    {
        let register = all[i];
        if str_equals_chars(register.name(), name) {
            proof {
                lemma_lookup_own_name(register);
            }
            return Some(register);
        }
        i += 1;
    }
    proof {
        assert forall|register: RegisterId| register.spec_name() != name@ by {
            lemma_catalog_complete(register);
        }
    }
    None
}

/// The register whose catalogue name is exactly `name`; the name is taken
/// as it stands, in upper case.
pub fn resolve_canonical(name: &str) -> (found: Option<RegisterId>)
    ensures
        found == lookup(name@),
{
    let chars = chars_of(name);
    find(&chars)
}

/// The register that `name` stands for, whatever the case of its letters.
///
/// The name is put in upper case and looked up in the catalogue. A name that
/// the catalogue does not hold is reported as such, with the name as it was
/// asked for; it never stands for some register.
pub fn resolve(name: &str) -> (result: Result<RegisterId, RegisterResolutionError>)
    ensures
        match result {
            Ok(register) => lookup(canonical(name@)) == Some(register),
            Err(e) => lookup(canonical(name@)) is None && e.name@ == name@,
        },
{
    let upper = to_canonical(name);
    match find(&upper) {
        Some(register) => Ok(register),
        None => Err(RegisterResolutionError { name: name.to_owned() }),
    }
}

/// The value of `symbol` for the CPU model `cpu`.
///
/// The model `"tc375"` knows the registers of the catalogue, under their
/// names in either case, each with its offset in the core's register space.
/// Any other symbol, and any symbol of another model, has the value 0.
pub open spec fn cpu_symbol(cpu: Seq<char>, canonical: Seq<char>) -> u32 {
    if cpu == "tc375"@ {
        match lookup(canonical) {
            Some(register) => register.spec_offset(),
            None => 0,
        }
    } else {
        0
    }
}

/// The value of `symbol` for the CPU model `cpu`: see [`cpu_symbol`].
pub fn get_cpu_symbol(cpu: String, symbol: String) -> (value: u32)
    ensures
        value == cpu_symbol(cpu@, canonical(symbol@)),
{
    if str_equal(cpu.as_str(), "tc375") {
        match resolve(symbol.as_str()) {
            Ok(register) => register.offset(),
            Err(_) => 0,
        }
    } else {
        0
    }
}

/// An ASCII text that is a register's name but for the case of its letters
/// stands for that register.
pub proof fn lemma_name_resolves_in_any_case(register: RegisterId, name: Seq<char>)
    requires
        is_ascii_chars(name),
        ascii_upper(name) == register.spec_name(),
    ensures
        lookup(canonical(name)) == Some(register),
{
    lemma_lookup_own_name(register);
}

/// Two ASCII names that differ in the case of their letters only stand for
/// the same register, or both for none.
pub proof fn lemma_lookup_ignores_ascii_case(a: Seq<char>, b: Seq<char>)
    requires
        is_ascii_chars(a),
        is_ascii_chars(b),
        ascii_upper(a) == ascii_upper(b),
    ensures
        lookup(canonical(a)) == lookup(canonical(b)),
{
}

/// A name that is no register's name in upper case stands for no register.
pub proof fn lemma_unknown_name_resolves_to_none(name: Seq<char>)
    requires
        forall|register: RegisterId| register.spec_name() != canonical(name),
    ensures
        lookup(canonical(name)) is None,
{
}

} // verus!
