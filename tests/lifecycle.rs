use sidecar_engine::lifecycle::{is_initialized, EngineSlot, Lifecycle};
use sidecar_engine::protocol::SidecarError;

#[test]
fn dispose_twice_is_harmless() {
    let mut slot: EngineSlot<u32> = EngineSlot::new();
    assert_eq!(slot.install(7), None);
    assert_eq!(slot.dispose(), Some(7));
    assert_eq!(slot.state(), Lifecycle::Uninitialized);
    assert_eq!(slot.dispose(), None);
    assert_eq!(slot.state(), Lifecycle::Uninitialized);
    assert!(!is_initialized(&slot));
}

#[test]
fn initialize_replaces_running_engine() {
    let mut slot: EngineSlot<u32> = EngineSlot::new();
    assert_eq!(slot.state(), Lifecycle::Uninitialized);
    slot.begin_initialize();
    assert_eq!(slot.state(), Lifecycle::Initializing);
    assert_eq!(slot.install(1), None);
    assert!(is_initialized(&slot));
    slot.begin_initialize();
    assert_eq!(slot.state(), Lifecycle::Ready);
    assert_eq!(slot.install(2), Some(1));
    assert_eq!(*slot.engine_mut().unwrap(), 2);
}

#[test]
fn failed_initialize_returns_to_uninitialized() {
    let mut slot: EngineSlot<u32> = EngineSlot::new();
    slot.begin_initialize();
    slot.abort_initialize();
    assert_eq!(slot.state(), Lifecycle::Uninitialized);
    slot.install(3);
    slot.begin_initialize();
    slot.abort_initialize();
    assert_eq!(slot.state(), Lifecycle::Ready);
}

#[test]
fn no_engine_no_exchange() {
    let mut slot: EngineSlot<u32> = EngineSlot::new();
    assert_eq!(slot.engine_mut().unwrap_err(), SidecarError::EngineNotInitialized);
}
