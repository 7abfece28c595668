use pgress_session::opcode::OpcodeClass;

#[test]
fn set_value_classified() {
    assert_eq!(OpcodeClass::from_opcode(0x0003), OpcodeClass::SetValue);
}

#[test]
fn demand_classified() {
    assert_eq!(OpcodeClass::from_opcode(0x0008), OpcodeClass::Demand);
}

#[test]
fn stabilize_classified() {
    assert_eq!(OpcodeClass::from_opcode(0x000B), OpcodeClass::Stabilize);
}

#[test]
fn partition_create_is_control() {
    assert!(OpcodeClass::from_opcode(0x000C).is_control_plane());
}

#[test]
fn session_profile_is_control() {
    assert!(OpcodeClass::from_opcode(0x0100).is_control_plane());
}

#[test]
fn unknown_opcode() {
    assert_eq!(OpcodeClass::from_opcode(0x8000), OpcodeClass::Unknown);
    assert_eq!(OpcodeClass::from_opcode(0xFFFF), OpcodeClass::Unknown);
}
