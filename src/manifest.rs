//! The contract that each manifest type meets, and the step that takes one
//! decoded source through conversion to installation.
use vstd::prelude::*;
use crate::identifier::Id;
use crate::item::{distinct_item_source, Item, ItemConversionError, ItemManifest, RawItemManifest};
use crate::loading::{step, LoadCoordinator, LoadEvent, LoadFailure, ManifestFormat};
use crate::recipe::{valid_recipe_source, Recipe, RecipeConversionError, RecipeManifest, RawRecipeManifest};

verus! {

/// A manifest: the canonical definitions of one entity type, converted from
/// a raw source and looked up by identifier.
pub trait Manifest: Sized {
    /// The final shape of one definition.
    type Item;
    /// The whole source as it comes out of decoding.
    type RawManifest;
    /// Why a decoded source is invalid for this manifest.
    type ConversionError;
    /// What conversion may consult, such as the manifests this one refers to.
    type Context;

    /// The manifest holds a definition with identifier value `id`.
    spec fn holds(&self, id: u64) -> bool;

    /// The source converts, given the context.
    spec fn converts(raw: &Self::RawManifest, context: &Self::Context) -> bool;

    /// The serialized format of the source.
    fn format() -> ManifestFormat;

    /// The definition with the given identifier, or `None` where there is none.
    fn get(&self, id: Id<Self::Item>) -> (r: Option<&Self::Item>)
        ensures
            r is Some <==> self.holds(id@),
    ;

    /// Converts the decoded source into the manifest.
    fn from_raw_manifest(raw: Self::RawManifest, context: &Self::Context) -> (r: Result<
        Self,
        Self::ConversionError,
    >)
        ensures
            r is Ok <==> Self::converts(&raw, context),
    ;
}

impl Manifest for ItemManifest {
    type Item = Item;
    type RawManifest = RawItemManifest;
    type ConversionError = ItemConversionError;
    type Context = ();

    open spec fn holds(&self, id: u64) -> bool {
        self@.contains_key(id)
    }

    open spec fn converts(raw: &RawItemManifest, context: &()) -> bool {
        distinct_item_source(raw.entries())
    }

    fn format() -> ManifestFormat {
        ManifestFormat::Ron
    }

    fn get(&self, id: Id<Item>) -> (r: Option<&Item>) {
        ItemManifest::get(self, id)
    }

    fn from_raw_manifest(raw: RawItemManifest, context: &()) -> (r: Result<
        ItemManifest,
        ItemConversionError,
    >) {
        ItemManifest::from_raw_manifest(raw)
    }
}

impl Manifest for RecipeManifest {
    type Item = Recipe;
    type RawManifest = RawRecipeManifest;
    type ConversionError = RecipeConversionError;
    type Context = ItemManifest;

    open spec fn holds(&self, id: u64) -> bool {
        self@.contains_key(id)
    }

    open spec fn converts(raw: &RawRecipeManifest, context: &ItemManifest) -> bool {
        valid_recipe_source(raw.entries(), context@)
    }

    fn format() -> ManifestFormat {
        ManifestFormat::Ron
    }

    fn get(&self, id: Id<Recipe>) -> (r: Option<&Recipe>) {
        RecipeManifest::get(self, id)
    }

    fn from_raw_manifest(raw: RawRecipeManifest, context: &ItemManifest) -> (r: Result<
        RecipeManifest,
        RecipeConversionError,
    >) {
        RecipeManifest::from_raw_manifest(raw, context)
    }
}

/// The event that processing a decoded source reports.
pub open spec fn processing_event<M: Manifest>(
    decoded: &Option<M::RawManifest>,
    context: &M::Context,
) -> LoadEvent {
    match decoded {
        None => LoadEvent::Failed(LoadFailure::Format),
        Some(raw) => if M::converts(raw, context) {
            LoadEvent::Installed
        } else {
            LoadEvent::Failed(LoadFailure::Conversion)
        },
    }
}

/// Takes the manifest at `slot` from its decoded source to installation:
/// `None` stands for a source that did not decode. It converts the source,
/// records the outcome, and hands back the manifest to install, if any.
pub fn process_manifest<M: Manifest>(
    coordinator: &mut LoadCoordinator,
    slot: usize,
    decoded: Option<M::RawManifest>,
    context: &M::Context,
) -> (r: Option<M>)
    ensures
        final(coordinator)@ == step(old(coordinator)@, slot as int, processing_event::<M>(&decoded, context)),
        r is Some <==> (processing_event::<M>(&decoded, context) == LoadEvent::Installed
            && crate::loading::accepts(old(coordinator)@, slot as int)),
{
    match decoded {
        None => {
            coordinator.report(slot, LoadEvent::Failed(LoadFailure::Format));
            None
        },
        Some(raw) => {
            let converted = M::from_raw_manifest(raw, context);
            coordinator.install(slot, converted)
        },
    }
}

} // verus!
