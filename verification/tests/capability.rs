use qecu::qecu::arch::tricore::RegisterId;
use qecu::qecu::capability::{
    disassembly_text, script_value, BackendRequest, CapabilityError, Instruction,
};
use qecu::qecu::interceptor::Interceptor;

fn handle() -> Interceptor<u32> {
    Interceptor::new()
}

fn instruction(mnemonic: &str, body: &str) -> Instruction {
    Instruction { mnemonic: String::from(mnemonic), body: String::from(body) }
}

#[test]
fn register_reads_resolve_the_name() {
    assert_eq!(
        handle().read_register(String::from("d3")),
        Ok(BackendRequest::ReadRegister { register: RegisterId::D3 })
    );
    assert_eq!(
        handle().read_register(String::from("Q7")),
        Err(CapabilityError::UnknownRegister)
    );
}

#[test]
fn register_writes_check_the_name_then_the_value() {
    assert_eq!(
        handle().write_register(String::from("A4"), 0x1234),
        Ok(BackendRequest::WriteRegister { register: RegisterId::A4, value: 0x1234 })
    );
    assert_eq!(
        handle().write_register(String::from("a4"), i64::MAX),
        Ok(BackendRequest::WriteRegister { register: RegisterId::A4, value: i64::MAX as u64 })
    );
    assert_eq!(
        handle().write_register(String::from("A4"), -1),
        Err(CapabilityError::Value)
    );
    assert_eq!(
        handle().write_register(String::from("zz"), -1),
        Err(CapabilityError::UnknownRegister)
    );
}

#[test]
fn memory_reads_check_the_address_then_the_size() {
    assert_eq!(
        handle().read_memory(0x8000_0000, 16),
        Ok(BackendRequest::ReadMemory { address: 0x8000_0000, size: 16 })
    );
    assert_eq!(
        handle().read_memory(0, 0),
        Ok(BackendRequest::ReadMemory { address: 0, size: 0 })
    );
    assert_eq!(handle().read_memory(-1, 16), Err(CapabilityError::Address));
    assert_eq!(handle().read_memory(-1, -1), Err(CapabilityError::Address));
    assert_eq!(handle().read_memory(0, -1), Err(CapabilityError::Size));
}

#[test]
fn memory_writes_check_the_address() {
    assert_eq!(
        handle().write_memory(0x100, vec![1, 2, 3]),
        Ok(BackendRequest::WriteMemory { address: 0x100, data: vec![1, 2, 3] })
    );
    assert_eq!(handle().write_memory(-5, vec![1]), Err(CapabilityError::Address));
}

#[test]
fn program_counter_and_sleep() {
    assert_eq!(
        handle().set_pc(0x8000_3d10),
        Ok(BackendRequest::SetPc { address: 0x8000_3d10 })
    );
    assert_eq!(handle().set_pc(-1), Err(CapabilityError::Address));
    assert_eq!(handle().sleep(250), Ok(BackendRequest::Sleep { millis: 250 }));
    assert_eq!(handle().sleep(0), Ok(BackendRequest::Sleep { millis: 0 }));
    assert_eq!(handle().sleep(-1), Err(CapabilityError::Duration));
}

#[test]
fn disassembly_requests_check_the_address_then_the_size() {
    assert_eq!(
        handle().disas(0x8000_0000, 8),
        Ok(BackendRequest::Disassemble { address: 0x8000_0000, size: 8 })
    );
    assert_eq!(
        handle().disas(0, 0xFFFF_FFFF),
        Ok(BackendRequest::Disassemble { address: 0, size: u32::MAX })
    );
    assert_eq!(handle().disas(0, 0x1_0000_0000), Err(CapabilityError::Size));
    assert_eq!(handle().disas(0, -1), Err(CapabilityError::Size));
    assert_eq!(handle().disas(-1, -1), Err(CapabilityError::Address));
}

#[test]
fn backend_values_become_script_integers() {
    assert_eq!(script_value(0), Ok(0));
    assert_eq!(script_value(0x8000_3d10), Ok(0x8000_3d10));
    assert_eq!(script_value(i64::MAX as u64), Ok(i64::MAX));
    assert_eq!(script_value(i64::MAX as u64 + 1), Err(CapabilityError::Value));
    assert_eq!(script_value(u64::MAX), Err(CapabilityError::Value));
}

#[test]
fn disassembly_text_joins_mnemonic_and_operands() {
    assert_eq!(disassembly_text(&Vec::new()), "");
    assert_eq!(disassembly_text(&vec![instruction("mov", "d0,#1")]), "mov d0,#1");
    assert_eq!(
        disassembly_text(&vec![
            instruction("mov", "d0,#1"),
            instruction("ret", ""),
            instruction("j", "0x80000010"),
        ]),
        "mov d0,#1ret j 0x80000010"
    );
}
