use gpio_wait::pin::{kind_bit, AsyncPin, ALL_TRIGGERS};
use gpio_wait::registry::{Registry, CAPACITY};
use gpio_wait::{AsyncError, TriggerKind};

#[derive(Debug, Clone, Copy, PartialEq, Eq)]
struct FakeInput {
    port: u8,
}

#[test]
fn release_returns_the_exact_input_capability() {
    let input = FakeInput { port: 3 };
    let handle = AsyncPin::from_pin(input, 3);
    assert_eq!(handle.free(), input);

    let handle = AsyncPin::from_pin(42u32, 9);
    assert_eq!(handle.free(), 42u32);
}

#[test]
fn all_five_trigger_kinds_are_wired_by_default() {
    let mut r = Registry::new();
    let kinds = [
        TriggerKind::HighLevel,
        TriggerKind::LowLevel,
        TriggerKind::RisingEdge,
        TriggerKind::FallingEdge,
        TriggerKind::AnyEdge,
    ];
    for (i, kind) in kinds.iter().enumerate() {
        let handle = AsyncPin::from_pin(FakeInput { port: i as u8 }, i as u8);
        let sig = handle.begin_wait(*kind, &mut r).unwrap();
        assert_eq!(sig.pin_number, i as u8);
    }
    assert_eq!(r.len(), kinds.len());
}

#[test]
fn named_wait_operations_register_their_line() {
    let mut r = Registry::new();
    let handle = AsyncPin::from_pin(FakeInput { port: 9 }, 9);
    let sig = handle.wait_for_falling_edge(&mut r).unwrap();
    assert_eq!(sig.pin_number, 9);
    assert!(r.contains_line(9));

    let other = AsyncPin::from_pin(FakeInput { port: 1 }, 1);
    assert!(other.wait_for_high(&mut r).is_ok());
    assert!(r.contains_line(1));
}

#[test]
fn unwired_trigger_kind_is_reported() {
    let mut r = Registry::new();
    let level_only = kind_bit(TriggerKind::HighLevel) | kind_bit(TriggerKind::LowLevel);
    let handle = AsyncPin::from_pin_with_support(FakeInput { port: 4 }, 4, level_only);
    assert_eq!(
        handle.wait_for_rising_edge(&mut r),
        Err(AsyncError::UnsupportedTrigger)
    );
    assert_eq!(handle.wait_for_any_edge(&mut r), Err(AsyncError::UnsupportedTrigger));
    // nothing was registered by the failed attempts
    assert_eq!(r.len(), 0);
    assert!(handle.wait_for_low(&mut r).is_ok());
}

#[test]
fn duplicate_wait_on_a_line_is_reported() {
    let mut r = Registry::new();
    let handle = AsyncPin::from_pin(FakeInput { port: 5 }, 5);
    assert!(handle.wait_for_high(&mut r).is_ok());
    assert_eq!(handle.wait_for_low(&mut r), Err(AsyncError::AlreadyAwaiting));
}

#[test]
fn wait_on_a_full_table_is_reported() {
    let mut r = Registry::new();
    for id in 0u8..(CAPACITY as u8) {
        assert!(r.register(id).is_ok());
    }
    let handle = AsyncPin::from_pin(FakeInput { port: 99 }, 99);
    assert_eq!(handle.wait_for_high(&mut r), Err(AsyncError::CapacityExceeded));
}

#[test]
fn support_mask_constants_cover_all_kinds() {
    let sum = kind_bit(TriggerKind::HighLevel)
        | kind_bit(TriggerKind::LowLevel)
        | kind_bit(TriggerKind::RisingEdge)
        | kind_bit(TriggerKind::FallingEdge)
        | kind_bit(TriggerKind::AnyEdge);
    assert_eq!(sum, ALL_TRIGGERS);
}
