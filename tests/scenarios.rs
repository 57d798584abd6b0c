use manifest_core::identifier::Id;
use manifest_core::item::{Item, ItemManifest, RawItemManifest};
use manifest_core::loading::{LoadCoordinator, LoadFailure, ManifestFormat, ReadinessState, SlotStatus};
use manifest_core::manifest::{process_manifest, Manifest};
use manifest_core::recipe::{RawRecipe, RawRecipeManifest, RecipeConversionError, RecipeManifest};

const ITEMS: u64 = 1;
const RECIPES: u64 = 2;

fn raw_items() -> RawItemManifest {
    RawItemManifest {
        items: vec![
            Item::new("sword".to_string(), "A sharp blade.".to_string(), 10, 250, 1),
            Item::new("shield".to_string(), "A sturdy guard.".to_string(), 5, 400, 1),
        ],
    }
}

fn recipe(name: &str, input: &str, output: &str) -> RawRecipe {
    RawRecipe { name: name.to_string(), input: input.to_string(), output: output.to_string() }
}

#[test]
fn sword_and_shield_load() {
    let mut c = LoadCoordinator::new();
    let slot = c.register(ITEMS, "items.ron".to_string(), ItemManifest::format()).unwrap();
    c.begin_loading();
    let installed: Option<ItemManifest> = process_manifest(&mut c, slot, Some(raw_items()), &());
    assert!(installed.is_some());
    assert_eq!(c.state(), ReadinessState::Ready);
    let items = c.available(&installed).unwrap();
    let sword = Manifest::get(items, Id::from_name("sword")).unwrap();
    assert_eq!(sword.name, "sword");
    assert_eq!(sword.value, 10);
    assert_eq!(sword.weight_hundredths, 250);
    assert!(Manifest::get(items, Id::from_name("unknown")).is_none());
}

#[test]
fn dangling_reference_fails_the_load() {
    let items = ItemManifest::from_raw_manifest(raw_items()).unwrap();
    let raw = RawRecipeManifest { recipes: vec![recipe("reforge", "sword", "greatsword")] };
    assert_eq!(
        RecipeManifest::from_raw_manifest(raw, &items).unwrap_err(),
        RecipeConversionError::UnknownOutput { recipe: 0 }
    );

    let mut c = LoadCoordinator::new();
    c.register(ITEMS, "items.ron".to_string(), ManifestFormat::Ron).unwrap();
    let slot = c.register(RECIPES, "recipes.ron".to_string(), ManifestFormat::Ron).unwrap();
    c.begin_loading();
    let raw = RawRecipeManifest { recipes: vec![recipe("reforge", "sword", "greatsword")] };
    let recipes: Option<RecipeManifest> = process_manifest(&mut c, slot, Some(raw), &items);
    assert!(recipes.is_none());
    assert_eq!(c.status(slot), Some(SlotStatus::Failed(LoadFailure::Conversion)));
    assert_eq!(c.state(), ReadinessState::Failed);
    assert!(c.available(&recipes).is_none());
}

#[test]
fn recipes_resolve_against_items() {
    let items = ItemManifest::from_raw_manifest(raw_items()).unwrap();
    let raw = RawRecipeManifest {
        recipes: vec![recipe("reforge", "sword", "shield"), recipe("melt", "shield", "sword")],
    };
    let m = RecipeManifest::from_raw_manifest(raw, &items).unwrap();
    let r = m.get(Id::from_name("melt")).unwrap();
    assert!(r.input == Id::from_name("shield"));
    assert!(r.output == Id::from_name("sword"));
    assert!(m.get(Id::from_name("smelt")).is_none());
}

#[test]
fn recipe_errors() {
    let items = ItemManifest::from_raw_manifest(raw_items()).unwrap();
    let raw = RawRecipeManifest { recipes: vec![recipe("reforge", "axe", "sword")] };
    assert_eq!(
        RecipeManifest::from_raw_manifest(raw, &items).unwrap_err(),
        RecipeConversionError::UnknownInput { recipe: 0 }
    );
    let raw = RawRecipeManifest {
        recipes: vec![recipe("reforge", "sword", "shield"), recipe("reforge", "shield", "sword")],
    };
    assert_eq!(
        RecipeManifest::from_raw_manifest(raw, &items).unwrap_err(),
        RecipeConversionError::DuplicateId { first: 0, second: 1 }
    );
}

#[test]
fn decode_failure_on_one_manifest_fails_all() {
    let mut c = LoadCoordinator::new();
    let items_slot = c.register(ITEMS, "items.ron".to_string(), ManifestFormat::Ron).unwrap();
    let recipes_slot = c.register(RECIPES, "recipes.ron".to_string(), ManifestFormat::Ron).unwrap();
    c.begin_loading();
    let items: Option<ItemManifest> = process_manifest(&mut c, items_slot, Some(raw_items()), &());
    assert!(items.is_some());
    let ctx = ItemManifest::from_raw_manifest(raw_items()).unwrap();
    let recipes: Option<RecipeManifest> = process_manifest(&mut c, recipes_slot, None, &ctx);
    assert!(recipes.is_none());
    assert_eq!(c.status(recipes_slot), Some(SlotStatus::Failed(LoadFailure::Format)));
    assert_eq!(c.state(), ReadinessState::Failed);
    assert!(c.available(&items).is_none());
}
