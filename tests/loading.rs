use manifest_core::loading::{
    aggregate_readiness, LoadCoordinator, LoadEvent, LoadFailure, ManifestFormat, ReadinessState,
    RegisterError, SlotStatus,
};

fn two_registered() -> LoadCoordinator {
    let mut c = LoadCoordinator::new();
    assert_eq!(c.register(1, "items.ron".to_string(), ManifestFormat::Ron), Ok(0));
    assert_eq!(c.register(2, "recipes.json".to_string(), ManifestFormat::Json), Ok(1));
    c
}

#[test]
fn aggregate_of_outcomes() {
    assert_eq!(aggregate_readiness(&[]), ReadinessState::Ready);
    assert_eq!(aggregate_readiness(&[SlotStatus::Installed, SlotStatus::Installed]), ReadinessState::Ready);
    assert_eq!(aggregate_readiness(&[SlotStatus::Installed, SlotStatus::Pending]), ReadinessState::Loading);
    assert_eq!(
        aggregate_readiness(&[
            SlotStatus::Pending,
            SlotStatus::Failed(LoadFailure::Format),
            SlotStatus::Installed,
        ]),
        ReadinessState::Failed
    );
}

#[test]
fn registered_but_not_loaded_is_loading() {
    let c = two_registered();
    assert_eq!(c.state(), ReadinessState::Loading);
    assert_eq!(c.len(), 2);
    assert_eq!(c.status(0), Some(SlotStatus::Pending));
    assert_eq!(c.status(2), None);
    let reg = c.registration(1).unwrap();
    assert_eq!(reg.kind, 2);
    assert_eq!(reg.path, "recipes.json");
    assert_eq!(reg.format, ManifestFormat::Json);
    assert!(c.registration(2).is_none());
}

#[test]
fn ready_only_when_every_manifest_installed() {
    let mut c = two_registered();
    assert!(!c.report(0, LoadEvent::Installed));
    c.begin_loading();
    assert_eq!(c.state(), ReadinessState::Loading);
    assert!(c.report(1, LoadEvent::Installed));
    assert_eq!(c.state(), ReadinessState::Loading);
    assert!(c.report(0, LoadEvent::Installed));
    assert_eq!(c.state(), ReadinessState::Ready);
}

#[test]
fn empty_coordinator_is_ready_once_started() {
    let mut c = LoadCoordinator::new();
    assert_eq!(c.state(), ReadinessState::Loading);
    c.begin_loading();
    assert_eq!(c.state(), ReadinessState::Ready);
}

#[test]
fn decode_failure_fails_everything() {
    let mut c = two_registered();
    c.begin_loading();
    assert!(c.report(0, LoadEvent::Installed));
    assert!(c.report(1, LoadEvent::Failed(LoadFailure::Format)));
    assert_eq!(c.state(), ReadinessState::Failed);
    assert_eq!(c.status(1), Some(SlotStatus::Failed(LoadFailure::Format)));
    let installed = Some(7u32);
    assert_eq!(c.available(&installed), None);
}

#[test]
fn failure_does_not_wait_for_the_rest() {
    let mut c = two_registered();
    c.begin_loading();
    assert!(c.report(0, LoadEvent::Failed(LoadFailure::Fetch)));
    assert_eq!(c.state(), ReadinessState::Failed);
    assert!(!c.report(1, LoadEvent::Installed));
    assert_eq!(c.status(1), Some(SlotStatus::Pending));
    assert_eq!(c.state(), ReadinessState::Failed);
}

#[test]
fn ready_is_terminal() {
    let mut c = two_registered();
    c.begin_loading();
    c.report(0, LoadEvent::Installed);
    c.report(1, LoadEvent::Installed);
    assert!(!c.report(1, LoadEvent::Failed(LoadFailure::Conversion)));
    assert_eq!(c.state(), ReadinessState::Ready);
    let installed = Some(7u32);
    assert_eq!(c.available(&installed), Some(&7));
    assert_eq!(c.available::<u32>(&None), None);
}

#[test]
fn registration_errors() {
    let mut c = two_registered();
    assert_eq!(
        c.register(1, "other.ron".to_string(), ManifestFormat::Ron),
        Err(RegisterError::Duplicate { slot: 0 })
    );
    c.begin_loading();
    assert_eq!(
        c.register(3, "late.ron".to_string(), ManifestFormat::Ron),
        Err(RegisterError::AlreadyStarted)
    );
    assert_eq!(c.len(), 2);
}

#[test]
fn unknown_slot_is_ignored() {
    let mut c = two_registered();
    c.begin_loading();
    assert!(!c.report(5, LoadEvent::Installed));
    assert_eq!(c.state(), ReadinessState::Loading);
}

#[test]
fn install_records_conversion_result() {
    let mut c = two_registered();
    c.begin_loading();
    assert_eq!(c.install::<u32, ()>(0, Ok(3)), Some(3));
    assert_eq!(c.status(0), Some(SlotStatus::Installed));
    assert_eq!(c.install::<u32, ()>(1, Err(())), None);
    assert_eq!(c.status(1), Some(SlotStatus::Failed(LoadFailure::Conversion)));
    assert_eq!(c.state(), ReadinessState::Failed);
}
