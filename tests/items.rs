use manifest_core::identifier::Id;
use manifest_core::item::{Item, ItemConversionError, ItemManifest, RawItemManifest};

fn item(name: &str, value: i32, weight_hundredths: u32) -> Item {
    Item::new(name.to_string(), format!("a {}", name), value, weight_hundredths, 1)
}

fn sword_and_shield() -> RawItemManifest {
    RawItemManifest { items: vec![item("sword", 10, 250), item("shield", 5, 400)] }
}

#[test]
fn round_trip_gives_each_item_back() {
    let m = ItemManifest::from_raw_manifest(sword_and_shield()).unwrap();
    let sword = m.get(Id::from_name("sword")).unwrap();
    assert_eq!(sword, &item("sword", 10, 250));
    let shield = m.get(Id::from_name("shield")).unwrap();
    assert_eq!(shield, &item("shield", 5, 400));
}

#[test]
fn absent_identifier_gives_none() {
    let m = ItemManifest::from_raw_manifest(sword_and_shield()).unwrap();
    assert!(m.get(Id::from_name("unknown")).is_none());
    assert!(m.get(Id::from_raw(0)).is_none());
}

#[test]
fn empty_source_converts_to_empty_manifest() {
    let m = ItemManifest::from_raw_manifest(RawItemManifest { items: vec![] }).unwrap();
    assert!(m.get(Id::from_name("sword")).is_none());
}

#[test]
fn two_loads_agree() {
    let a = ItemManifest::from_raw_manifest(sword_and_shield()).unwrap();
    let b = ItemManifest::from_raw_manifest(sword_and_shield()).unwrap();
    for name in ["sword", "shield", "unknown"] {
        assert_eq!(a.get(Id::from_name(name)), b.get(Id::from_name(name)));
    }
}

#[test]
fn duplicate_names_are_rejected() {
    let raw = RawItemManifest {
        items: vec![item("sword", 10, 250), item("shield", 5, 400), item("sword", 3, 100)],
    };
    assert_eq!(
        ItemManifest::from_raw_manifest(raw).unwrap_err(),
        ItemConversionError::DuplicateId { first: 0, second: 2 }
    );
}

#[test]
fn item_id_comes_from_name() {
    let it = item("sword", 10, 250);
    assert!(it.id() == Id::from_name("sword"));
}

#[test]
fn items_lists_every_item_once() {
    let m = ItemManifest::from_raw_manifest(sword_and_shield()).unwrap();
    let all = m.items();
    assert_eq!(all.len(), 2);
    assert_eq!(all[0].name, "sword");
    assert_eq!(all[1].name, "shield");
    for it in all {
        assert_eq!(m.get(it.id()), Some(it));
    }
}
