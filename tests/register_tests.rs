use oxidation_core::registers::{Register, RegisterError, RegisterValue, Registers};
use oxidation_core::security_context::{AccessFlags, AccessType, SecurityContext};

#[test]
fn read_only_register_rejects_set_value() {
    let mut reg = Register::new(AccessFlags::read(), Registers::R1, RegisterValue::I32(5));
    assert_eq!(
        reg.set_value(RegisterValue::I32(6), SecurityContext::User),
        Err(RegisterError::RegisterInvalidAccess)
    );
    assert_eq!(
        reg.set_value(RegisterValue::I32(6), SecurityContext::System),
        Err(RegisterError::RegisterInvalidAccess)
    );
    assert_eq!(reg.get_value(SecurityContext::User), Ok(RegisterValue::I32(5)));
}

#[test]
fn writable_register_takes_any_tag() {
    let mut reg = Register::new(AccessFlags::read_write(), Registers::R2, RegisterValue::I32(5));
    assert_eq!(reg.set_value(RegisterValue::I64(-9), SecurityContext::User), Ok(()));
    assert_eq!(reg.get_value_ref(SecurityContext::User), Ok(&RegisterValue::I64(-9)));
    assert_eq!(reg.id_of(), Registers::R2);
}

#[test]
fn private_flags_need_system_context() {
    let flags = AccessFlags::private_read().union(AccessFlags::private_write());
    let mut reg = Register::new(flags, Registers::FL, RegisterValue::I16(1));
    assert_eq!(reg.get_value(SecurityContext::User), Err(RegisterError::RegisterInvalidAccess));
    assert_eq!(reg.get_value(SecurityContext::System), Ok(RegisterValue::I16(1)));
    assert_eq!(
        reg.set_value(RegisterValue::I16(2), SecurityContext::User),
        Err(RegisterError::RegisterInvalidAccess)
    );
    assert_eq!(reg.set_value(RegisterValue::I16(2), SecurityContext::System), Ok(()));
    assert_eq!(reg.get_value(SecurityContext::System), Ok(RegisterValue::I16(2)));
}

#[test]
fn write_only_register_cannot_be_read() {
    let reg = Register::new(AccessFlags::write(), Registers::R3, RegisterValue::I32(1));
    assert_eq!(reg.get_value(SecurityContext::System), Err(RegisterError::RegisterInvalidAccess));
}

#[test]
fn access_flag_bits_are_distinct() {
    assert_eq!(AccessFlags::none().bits(), 1);
    assert_eq!(AccessFlags::read().bits(), 2);
    assert_eq!(AccessFlags::write().bits(), 4);
    assert_eq!(AccessFlags::private_read().bits(), 8);
    assert_eq!(AccessFlags::private_write().bits(), 16);
    assert_eq!(AccessFlags::read_write().bits(), 6);
    let rw = AccessFlags::read_write();
    assert!(rw.contains(AccessFlags::read()));
    assert!(!rw.contains(AccessFlags::private_write()));
    assert_eq!(rw.intersection(AccessFlags::write()), AccessFlags::write());
    assert_eq!(AccessFlags::from_bits(18).bits(), 18);
    assert!(AccessFlags::from_bits(18).permits(SecurityContext::System, AccessType::Write));
    assert!(!AccessFlags::from_bits(18).permits(SecurityContext::User, AccessType::Write));
}

#[test]
fn register_names_and_indices() {
    assert_eq!(Registers::R1.to_string(), "R1");
    assert_eq!(Registers::AC.to_string(), "AC");
    assert_eq!(Registers::FL.to_string(), "FL");
    assert_eq!(Registers::R8.index(), 7);
    assert_eq!(Registers::from_index(8), Some(Registers::AC));
    assert_eq!(Registers::from_index(10), None);
}
