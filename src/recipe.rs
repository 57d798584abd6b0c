//! The recipe manifest: crafting recipes that turn one item into another.
//! Its entries name items of the item manifest, so converting it needs that
//! manifest as context.
use vstd::prelude::*;
use crate::identifier::{id_of_name, Id};
use crate::item::{Item, ItemManifest};
use crate::table::{distinct, lemma_table_absent, lemma_table_index, table};

verus! {

/// A recipe as written in its source: the items it uses and makes are
/// referred to by name.
#[derive(Debug)]
pub struct RawRecipe {
    pub name: String,
    pub input: String,
    pub output: String,
}

/// The mathematical content of a [`RawRecipe`].
pub struct RawRecipeView {
    pub name: Seq<char>,
    pub input: Seq<char>,
    pub output: Seq<char>,
}

impl View for RawRecipe {
    type V = RawRecipeView;

    open spec fn view(&self) -> RawRecipeView {
        RawRecipeView { name: self.name@, input: self.input@, output: self.output@ }
    }
}

/// The recipe manifest as it comes out of its serialized source.
#[derive(Debug)]
pub struct RawRecipeManifest {
    pub recipes: Vec<RawRecipe>,
}

impl RawRecipeManifest {
    /// The recipes of the source, in order.
    pub open spec fn entries(&self) -> Seq<RawRecipeView> {
        self.recipes@.map_values(|r: RawRecipe| r@)
    }
}

/// A recipe whose items are known: crafting it turns `input` into `output`.
#[derive(Debug)]
pub struct Recipe {
    pub name: String,
    pub input: Id<Item>,
    pub output: Id<Item>,
}

/// The mathematical content of a [`Recipe`].
pub struct RecipeView {
    pub name: Seq<char>,
    pub input: u64,
    pub output: u64,
}

impl View for Recipe {
    type V = RecipeView;

    open spec fn view(&self) -> RecipeView {
        RecipeView { name: self.name@, input: self.input@, output: self.output@ }
    }
}

/// The recipe that a raw recipe converts into.
pub open spec fn converted_recipe(r: RawRecipeView) -> RecipeView {
    RecipeView { name: r.name, input: id_of_name(r.input), output: id_of_name(r.output) }
}

/// The identifiers of `entries`, derived from their names, in order.
pub open spec fn recipe_ids(entries: Seq<RawRecipeView>) -> Seq<u64> {
    entries.map_values(|e: RawRecipeView| id_of_name(e.name))
}

/// Both items that a raw recipe names are in `items`.
pub open spec fn references_known(r: RawRecipeView, items: Map<u64, crate::item::ItemView>) -> bool {
    items.contains_key(id_of_name(r.input)) && items.contains_key(id_of_name(r.output))
}

/// The source converts: no two recipes share an identifier, and every item
/// that a recipe names is in `items`.
pub open spec fn valid_recipe_source(entries: Seq<RawRecipeView>, items: Map<u64, crate::item::ItemView>) -> bool {
    &&& distinct(recipe_ids(entries))
    &&& forall|i: int| 0 <= i < entries.len() ==> references_known(#[trigger] entries[i], items)
}

/// The lookup table that a valid source converts into.
pub open spec fn recipe_table(entries: Seq<RawRecipeView>) -> Map<u64, RecipeView> {
    table(recipe_ids(entries), entries.map_values(|e: RawRecipeView| converted_recipe(e)))
}

/// Why a recipe source could not be converted.
#[derive(Clone, Copy, Debug, PartialEq, Eq)]
pub enum RecipeConversionError {
    /// The recipes at positions `first` and `second` have the same identifier.
    DuplicateId { first: usize, second: usize },
    /// The recipe at position `recipe` uses an item that is not in the item
    /// manifest.
    UnknownInput { recipe: usize },
    /// The recipe at position `recipe` makes an item that is not in the item
    /// manifest.
    UnknownOutput { recipe: usize },
}

/// Every crafting recipe, keyed by identifier. Once built it is never changed.
#[derive(Debug)]
pub struct RecipeManifest {
    keys: Vec<u64>,
    recipes: Vec<Recipe>,
}

impl View for RecipeManifest {
    type V = Map<u64, RecipeView>;

    closed spec fn view(&self) -> Map<u64, RecipeView> {
        table(self.keys@, self.recipes@.map_values(|r: Recipe| r@))
    }
}

impl RecipeManifest {
    #[verifier::type_invariant]
    spec fn inv(&self) -> bool {
        &&& self.keys@.len() == self.recipes@.len()
        &&& distinct(self.keys@)
    }

    /// The recipe with the given identifier, or `None` where there is none.
    pub fn get(&self, id: Id<Recipe>) -> (r: Option<&Recipe>)
        ensures
            match r {
                Some(rc) => self@.contains_key(id@) && self@[id@] == rc@,
                None => !self@.contains_key(id@),
            },
    {
        proof {
            use_type_invariant(self);
        }
        let k = id.raw();
        let mut i: usize = 0;
        while i < self.keys.len()
            invariant
                self.keys@.len() == self.recipes@.len(),
                distinct(self.keys@),
                i <= self.keys@.len(),
                k == id@,
                forall|j: int| 0 <= j < i ==> self.keys@[j] != k,
            decreases self.keys@.len() - i,
        {
            if self.keys[i] == k {
                proof {
                    lemma_table_index(self.keys@, self.recipes@.map_values(|r: Recipe| r@), i as int);
                }
                return Some(&self.recipes[i]);
            }
            i = i + 1;
        }
        proof {
            lemma_table_absent(self.keys@, self.recipes@.map_values(|r: Recipe| r@), k);
        }
        None
    }

    /// Converts the raw source into the manifest, resolving item names
    /// against `items`. It fails where two recipes share an identifier or a
    /// recipe names an item that `items` does not hold, and only there.
    pub fn from_raw_manifest(raw: RawRecipeManifest, items: &ItemManifest) -> (r: Result<
        RecipeManifest,
        RecipeConversionError,
    >)
        ensures
            match r {
                Ok(m) => valid_recipe_source(raw.entries(), items@) && m@ == recipe_table(
                    raw.entries(),
                ),
                Err(RecipeConversionError::DuplicateId { first, second }) => {
                    &&& first < second < raw.recipes@.len()
                    &&& recipe_ids(raw.entries())[first as int] == recipe_ids(
                        raw.entries(),
                    )[second as int]
                },
                Err(RecipeConversionError::UnknownInput { recipe }) => {
                    &&& recipe < raw.recipes@.len()
                    &&& !items@.contains_key(id_of_name(raw.entries()[recipe as int].input))
                },
                Err(RecipeConversionError::UnknownOutput { recipe }) => {
                    &&& recipe < raw.recipes@.len()
                    &&& !items@.contains_key(id_of_name(raw.entries()[recipe as int].output))
                },
            },
    {
        let n = raw.recipes.len();
        let mut keys: Vec<u64> = Vec::new();
        let mut recipes: Vec<Recipe> = Vec::new();
        let mut i: usize = 0;
        while i < n
            invariant
                n == raw.recipes@.len(),
                i <= n,
                keys@.len() == i,
                recipes@.len() == i,
                forall|j: int| 0 <= j < i ==> keys@[j] == id_of_name(raw.recipes@[j].name@),
                forall|j: int| 0 <= j < i ==> recipes@[j]@ == converted_recipe(raw.recipes@[j]@),
                forall|j: int| 0 <= j < i ==> references_known(raw.recipes@[j]@, items@),
                distinct(keys@),
            decreases n - i,
        {
            let rr = &raw.recipes[i];
            let input: Id<Item> = Id::from_name(rr.input.as_str());
            if items.get(input.clone()).is_none() {
                return Err(RecipeConversionError::UnknownInput { recipe: i });
            }
            let output: Id<Item> = Id::from_name(rr.output.as_str());
            if items.get(output.clone()).is_none() {
                return Err(RecipeConversionError::UnknownOutput { recipe: i });
            }
            let k = Id::<Recipe>::from_name(rr.name.as_str()).raw();
            let mut j: usize = 0;
            while j < i
                invariant
                    n == raw.recipes@.len(),
                    i < n,
                    j <= i,
                    keys@.len() == i,
                    k == id_of_name(raw.recipes@[i as int].name@),
                    forall|t: int| 0 <= t < i ==> keys@[t] == id_of_name(raw.recipes@[t].name@),
                    forall|t: int| 0 <= t < j ==> keys@[t] != k,
                decreases i - j,
            {
                if keys[j] == k {
                    assert(recipe_ids(raw.entries())[j as int] == keys@[j as int]);
                    return Err(RecipeConversionError::DuplicateId { first: j, second: i });
                }
                j = j + 1;
            }
            keys.push(k);
            recipes.push(Recipe { name: rr.name.clone(), input, output });
            i = i + 1;
        }
        assert(keys@ =~= recipe_ids(raw.entries()));
        assert(recipes@.map_values(|r: Recipe| r@) =~= raw.entries().map_values(
            |e: RawRecipeView| converted_recipe(e),
        ));
        Ok(RecipeManifest { keys, recipes })
    }
}

} // verus!
