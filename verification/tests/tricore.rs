use qecu::qecu::arch::tricore::{
    catalog, get_cpu_symbol, resolve, resolve_canonical, RegisterId, RegisterResolutionError,
};

#[test]
fn data_register_resolves_in_either_case() {
    assert_eq!(resolve("d0"), Ok(RegisterId::D0));
    assert_eq!(resolve("D0"), Ok(RegisterId::D0));
    assert_eq!(resolve("d0"), resolve("D0"));
}

#[test]
fn address_register_resolves() {
    assert_eq!(resolve("A15"), Ok(RegisterId::A15));
    assert_eq!(resolve("a15"), Ok(RegisterId::A15));
    assert_eq!(resolve("A1"), Ok(RegisterId::A1));
    assert_eq!(resolve("A10"), Ok(RegisterId::A10));
    assert_ne!(resolve("A1"), resolve("A10"));
    assert_ne!(resolve("A0"), resolve("D0"));
}

#[test]
fn special_registers_resolve() {
    assert_eq!(resolve("biv"), Ok(RegisterId::BIV));
    assert_eq!(resolve("Fcx"), Ok(RegisterId::FCX));
    assert_eq!(resolve("pc"), Ok(RegisterId::PC));
    assert_eq!(resolve("PCXI"), Ok(RegisterId::PCXI));
    assert_eq!(resolve("cpu_id"), Ok(RegisterId::CPU_ID));
    assert_eq!(resolve("SysCon"), Ok(RegisterId::SYSCON));
}

#[test]
fn unknown_register_is_reported_not_defaulted() {
    assert_eq!(
        resolve("Q7"),
        Err(RegisterResolutionError { name: String::from("Q7") })
    );
    assert_eq!(
        resolve("typo"),
        Err(RegisterResolutionError { name: String::from("typo") })
    );
    assert!(resolve("").is_err());
    assert!(resolve("A16").is_err());
    assert!(resolve("D-1").is_err());
    assert!(resolve("A").is_err());
    assert!(resolve("A00").is_err());
    assert!(resolve(" A0").is_err());
    assert!(resolve("A0 ").is_err());
    assert!(resolve("D016").is_err());
}

#[test]
fn every_register_resolves_from_its_own_name() {
    let all = catalog();
    assert_eq!(all.len(), 43);
    for register in &all {
        assert_eq!(resolve(register.name()), Ok(*register));
        assert_eq!(resolve(&register.name().to_lowercase()), Ok(*register));
        assert_eq!(resolve_canonical(register.name()), Some(*register));
    }
    for (i, a) in all.iter().enumerate() {
        for b in &all[i + 1..] {
            assert_ne!(a, b);
            assert_ne!(a.name(), b.name());
            assert_ne!(a.offset(), b.offset());
        }
    }
}

#[test]
fn canonical_lookup_takes_the_name_as_it_stands() {
    assert_eq!(resolve_canonical("D0"), Some(RegisterId::D0));
    assert_eq!(resolve_canonical("d0"), None);
    assert_eq!(resolve_canonical("Biv"), None);
    assert_eq!(resolve_canonical("BIV"), Some(RegisterId::BIV));
}

#[test]
fn register_offsets() {
    assert_eq!(RegisterId::D0.offset(), 0xFF00);
    assert_eq!(RegisterId::D15.offset(), 0xFF3C);
    assert_eq!(RegisterId::A0.offset(), 0xFF80);
    assert_eq!(RegisterId::A15.offset(), 0xFFBC);
    assert_eq!(RegisterId::PCXI.offset(), 0xFE00);
    assert_eq!(RegisterId::PSW.offset(), 0xFE04);
    assert_eq!(RegisterId::PC.offset(), 0xFE08);
    assert_eq!(RegisterId::BIV.offset(), 0xFE20);
    assert_eq!(RegisterId::FCX.offset(), 0xFE38);
    assert_eq!(RegisterId::LCX.offset(), 0xFE3C);
}

#[test]
fn cpu_symbol_of_known_model() {
    assert_eq!(get_cpu_symbol(String::from("tc375"), String::from("BIV")), 0xFE20);
    assert_eq!(get_cpu_symbol(String::from("tc375"), String::from("d1")), 0xFF04);
    assert_eq!(get_cpu_symbol(String::from("tc375"), String::from("a10")), 0xFFA8);
}

#[test]
fn cpu_symbol_of_unknown_model_or_symbol_is_zero() {
    assert_eq!(get_cpu_symbol(String::from("tc397"), String::from("BIV")), 0);
    assert_eq!(get_cpu_symbol(String::from("TC375"), String::from("BIV")), 0);
    assert_eq!(get_cpu_symbol(String::from(""), String::from("D0")), 0);
    assert_eq!(get_cpu_symbol(String::from("tc375"), String::from("Q7")), 0);
    assert_eq!(get_cpu_symbol(String::from("tc375"), String::from("")), 0);
}

#[test]
fn names_outside_ascii_are_put_in_upper_case_too() {
    // U+0131, the dotless i, has the upper-case form `I`.
    assert_eq!(resolve("b\u{131}v"), Ok(RegisterId::BIV));
    assert_eq!(resolve_canonical("b\u{131}v"), None);
    // U+FF44, the full-width d, has a full-width upper-case form.
    assert_eq!(
        resolve("\u{ff44}0"),
        Err(RegisterResolutionError { name: String::from("\u{ff44}0") })
    );
    assert_eq!(get_cpu_symbol(String::from("tc375"), String::from("\u{131}cr")), 0xFE2C);
}
