use driver_env::errors::EnvError;
use driver_env::pci::{
    parse_pci_address, pci_target, pci_target_value, ConfigPorts, PciAddress, PCI_CONFIG_ADDR,
    PCI_CONFIG_DATA,
};

#[test]
fn target_value_packs_the_documented_formula() {
    let addr = PciAddress { bus: 0x00, device: 0x1F, function: 0x06 };
    // 0x80000000 | 0x00 << 16 | 0x1F << 11 | 0x06 << 8 | 0x10
    assert_eq!(pci_target_value(addr, 0x10), 0x8000_FE10);

    let addr = PciAddress { bus: 0xAB, device: 0x11, function: 0x03 };
    assert_eq!(
        pci_target_value(addr, 0x44),
        0x8000_0000 | (0xAB << 16) | (0x11 << 11) | (0x03 << 8) | 0x44
    );
}

#[test]
fn target_latches_the_config_address_port() {
    let mut ports = ConfigPorts::new(true);
    let addr = PciAddress { bus: 1, device: 2, function: 3 };
    assert_eq!(pci_target(&mut ports, addr, 0x20), Ok(()));
    assert_eq!(ports.latched, pci_target_value(addr, 0x20));
    // Reading CONFIG_ADDRESS reads the latch back.
    assert_eq!(ports.port_in_32(PCI_CONFIG_ADDR), Ok(ports.latched));
}

#[test]
fn unwritten_targets_read_as_zero() {
    let mut ports = ConfigPorts::new(true);
    let addr = PciAddress { bus: 0, device: 4, function: 0 };
    assert_eq!(pci_target(&mut ports, addr, 0), Ok(()));
    assert_eq!(ports.port_in_32(PCI_CONFIG_DATA), Ok(0));
}

#[test]
fn flush_port_writes_change_nothing() {
    let mut ports = ConfigPorts::new(true);
    let addr = PciAddress { bus: 0, device: 4, function: 0 };
    assert_eq!(pci_target(&mut ports, addr, 8), Ok(()));
    let latched_before = ports.latched;
    assert_eq!(ports.port_out_32(0x80, 0), Ok(()));
    assert_eq!(ports.latched, latched_before);
    assert_eq!(ports.port_in_32(0x80), Ok(0));
}

#[test]
fn unpermitted_ports_deny_every_access() {
    let mut ports = ConfigPorts::new(false);
    let addr = PciAddress { bus: 0, device: 0, function: 0 };
    assert_eq!(pci_target(&mut ports, addr, 0), Err(EnvError::PermissionDenied));
    assert_eq!(ports.port_in_32(PCI_CONFIG_DATA), Err(EnvError::PermissionDenied));
    assert_eq!(ports.port_out_32(PCI_CONFIG_DATA, 7), Err(EnvError::PermissionDenied));
}

#[test]
fn parse_pci_address_accepts_the_usual_form() {
    assert_eq!(
        parse_pci_address("00:1f.6"),
        Some(PciAddress { bus: 0x00, device: 0x1F, function: 0x06 })
    );
    assert_eq!(
        parse_pci_address("AB:cd.0"),
        Some(PciAddress { bus: 0xAB, device: 0xCD, function: 0x00 })
    );
    assert_eq!(
        parse_pci_address("0:0.0"),
        Some(PciAddress { bus: 0, device: 0, function: 0 })
    );
    // The split is on either separator in either position.
    assert_eq!(
        parse_pci_address("01.02:03"),
        Some(PciAddress { bus: 1, device: 2, function: 3 })
    );
}

#[test]
fn parse_pci_address_rejects_malformed_text() {
    assert_eq!(parse_pci_address(""), None);
    assert_eq!(parse_pci_address("001f6"), None);
    assert_eq!(parse_pci_address("00:1f"), None);
    assert_eq!(parse_pci_address("00:1f.6.7"), None);
    assert_eq!(parse_pci_address("00::6"), None);
    assert_eq!(parse_pci_address("00:zz.6"), None);
    assert_eq!(parse_pci_address("00:+1f.6"), None);
    // A field of 256 or more does not fit an eight-bit value.
    assert_eq!(parse_pci_address("100:00.0"), None);
    assert_eq!(parse_pci_address("00:1f."), None);
}
