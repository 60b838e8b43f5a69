use hyperlight_unikraft::ParseError;
use hyperlight_unikraft::VmConfig;

#[test]
fn default_sizes() {
    let config = VmConfig::default();
    assert_eq!(config.heap_size, 512 * 1024 * 1024);
    assert_eq!(config.stack_size, 8 * 1024 * 1024);
}

#[test]
fn with_heap_size_keeps_the_stack() {
    let config = VmConfig::default().with_heap_size(1 << 30);
    assert_eq!(config.heap_size, 1 << 30);
    assert_eq!(config.stack_size, 8 * 1024 * 1024);
}

#[test]
fn with_stack_size_keeps_the_heap() {
    let config = VmConfig::default().with_stack_size(65536);
    assert_eq!(config.heap_size, 512 * 1024 * 1024);
    assert_eq!(config.stack_size, 65536);
}

#[test]
fn builders_chain() {
    let config = VmConfig::default().with_heap_size(1).with_stack_size(2).with_heap_size(3);
    assert_eq!(config.heap_size, 3);
    assert_eq!(config.stack_size, 2);
}

#[test]
fn from_size_texts() {
    let config = VmConfig::from_sizes("256Mi", "8Mi").unwrap();
    assert_eq!(config.heap_size, 256 * 1024 * 1024);
    assert_eq!(config.stack_size, 8 * 1024 * 1024);
    let config = VmConfig::from_sizes(" 1G ", "65536").unwrap();
    assert_eq!(config.heap_size, 1_000_000_000);
    assert_eq!(config.stack_size, 65536);
}

#[test]
fn from_size_texts_that_are_no_sizes() {
    assert_eq!(VmConfig::from_sizes("lots", "8Mi").err(), Some(ParseError::InvalidFormat));
    assert_eq!(VmConfig::from_sizes("512Mi", "").err(), Some(ParseError::InvalidFormat));
    assert_eq!(VmConfig::from_sizes("x", "y").err(), Some(ParseError::InvalidFormat));
}
