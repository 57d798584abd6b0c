//! The item manifest: the canonical data of every kind of item in the game.
use vstd::prelude::*;
use crate::identifier::{id_of_name, Id};
use crate::table::{distinct, lemma_table_absent, lemma_table_dom, lemma_table_index, table};

verus! {

/// The data of one kind of item that the player may hold.
///
/// All items with the same name have the same data: a sword of slaying is
/// always a sword of slaying, however many of them the player carries. How
/// many the player has, and per-item state such as durability, live elsewhere.
#[derive(Clone, Debug, PartialEq)]
pub struct Item {
    pub name: String,
    pub description: String,
    pub value: i32,
    /// The weight, in hundredths of a unit.
    pub weight_hundredths: u32,
    pub max_stack: u8,
}

/// The mathematical content of an [`Item`].
pub struct ItemView {
    pub name: Seq<char>,
    pub description: Seq<char>,
    pub value: i32,
    pub weight_hundredths: u32,
    pub max_stack: u8,
}

impl View for Item {
    type V = ItemView;

    open spec fn view(&self) -> ItemView {
        ItemView {
            name: self.name@,
            description: self.description@,
            value: self.value,
            weight_hundredths: self.weight_hundredths,
            max_stack: self.max_stack,
        }
    }
}

impl Item {
    /// An item with the given data.
    pub fn new(
        name: String,
        description: String,
        value: i32,
        weight_hundredths: u32,
        max_stack: u8,
    ) -> (r: Item)
        ensures
            r@ == (ItemView {
                name: name@,
                description: description@,
                value,
                weight_hundredths,
                max_stack,
            }),
    {
        Item { name, description, value, weight_hundredths, max_stack }
    }

    /// The identifier of this item, derived from its name.
    pub fn id(&self) -> (r: Id<Item>)
        ensures
            r@ == id_of_name(self.name@),
    {
        Id::from_name(self.name.as_str())
    }
}

/// The item manifest as it comes out of its serialized source: a list of
/// items, each identified by its name.
#[derive(Debug)]
pub struct RawItemManifest {
    pub items: Vec<Item>,
}

impl RawItemManifest {
    /// The items of the source, in order.
    pub open spec fn entries(&self) -> Seq<ItemView> {
        self.items@.map_values(|it: Item| it@)
    }
}

/// The identifiers of `entries`, in order.
pub open spec fn item_ids(entries: Seq<ItemView>) -> Seq<u64> {
    entries.map_values(|e: ItemView| id_of_name(e.name))
}

/// No two items of the source share an identifier: the source converts.
pub open spec fn distinct_item_source(entries: Seq<ItemView>) -> bool {
    distinct(item_ids(entries))
}

/// The lookup table that a valid source converts into.
pub open spec fn item_table(entries: Seq<ItemView>) -> Map<u64, ItemView> {
    table(item_ids(entries), entries)
}

/// Why an item source could not be converted.
#[derive(Clone, Copy, Debug, PartialEq, Eq)]
pub enum ItemConversionError {
    /// The items at positions `first` and `second` have the same identifier.
    DuplicateId { first: usize, second: usize },
}

/// The canonical data of every item, keyed by identifier. Once built it is
/// never changed.
#[derive(Debug)]
pub struct ItemManifest {
    keys: Vec<u64>,
    items: Vec<Item>,
}

impl View for ItemManifest {
    type V = Map<u64, ItemView>;

    closed spec fn view(&self) -> Map<u64, ItemView> {
        table(self.keys@, self.items@.map_values(|it: Item| it@))
    }
}

impl ItemManifest {
    #[verifier::type_invariant]
    spec fn inv(&self) -> bool {
        &&& self.keys@.len() == self.items@.len()
        &&& distinct(self.keys@)
        &&& forall|i: int| 0 <= i < self.keys@.len() ==> self.keys@[i] == id_of_name(#[trigger] self.items@[i].name@)
    }

    /// Every item of the manifest, each once, in the order of the source.
    pub fn items(&self) -> (r: &Vec<Item>)
        ensures
            forall|i: int| 0 <= i < r@.len() ==> {
                &&& self@.contains_key(id_of_name(#[trigger] r@[i].name@))
                &&& self@[id_of_name(r@[i].name@)] == r@[i]@
            },
            forall|k: u64| #[trigger] self@.contains_key(k) ==> exists|i: int|
                0 <= i < r@.len() && id_of_name(#[trigger] r@[i].name@) == k,
            r@.len() == self@.len(),
    {
        proof {
            use_type_invariant(self);
            let vals = self.items@.map_values(|it: Item| it@);
            lemma_table_dom(self.keys@, vals);
            assert forall|i: int| 0 <= i < self.items@.len() implies {
                &&& self@.contains_key(id_of_name(#[trigger] self.items@[i].name@))
                &&& self@[id_of_name(self.items@[i].name@)] == self.items@[i]@
            } by {
                lemma_table_index(self.keys@, vals, i);
            }
            assert forall|k: u64| #[trigger] self@.contains_key(k) implies exists|i: int|
                0 <= i < self.items@.len() && id_of_name(#[trigger] self.items@[i].name@) == k by {
                assert(self.keys@.to_set().contains(k));
                let i = choose|i: int| 0 <= i < self.keys@.len() && self.keys@[i] == k;
                assert(self.keys@[i] == id_of_name(self.items@[i].name@));
            }
            self.keys@.unique_seq_to_set();
        }
        &self.items
    }

    /// The item with the given identifier, or `None` where there is none.
    pub fn get(&self, id: Id<Item>) -> (r: Option<&Item>)
        ensures
            match r {
                Some(it) => self@.contains_key(id@) && self@[id@] == it@,
                None => !self@.contains_key(id@),
            },
    {
        proof {
            use_type_invariant(self);
        }
        let k = id.raw();
        let mut i: usize = 0;
        while i < self.keys.len()
            invariant
                self.keys@.len() == self.items@.len(),
                distinct(self.keys@),
                i <= self.keys@.len(),
                k == id@,
                forall|j: int| 0 <= j < i ==> self.keys@[j] != k,
            decreases self.keys@.len() - i,
        {
            if self.keys[i] == k {
                proof {
                    lemma_table_index(self.keys@, self.items@.map_values(|it: Item| it@), i as int);
                }
                return Some(&self.items[i]);
            }
            i = i + 1;
        }
        proof {
            lemma_table_absent(self.keys@, self.items@.map_values(|it: Item| it@), k);
        }
        None
    }

    /// Converts the raw source into the manifest. It fails where two items
    /// share an identifier, and only there.
    pub fn from_raw_manifest(raw: RawItemManifest) -> (r: Result<ItemManifest, ItemConversionError>)
        ensures
            match r {
                Ok(m) => distinct_item_source(raw.entries()) && m@ == item_table(raw.entries()),
                Err(ItemConversionError::DuplicateId { first, second }) => {
                    &&& first < second < raw.items@.len()
                    &&& item_ids(raw.entries())[first as int] == item_ids(raw.entries())[second as int]
                },
            },
    {
        let n = raw.items.len();
        let mut keys: Vec<u64> = Vec::new();
        let mut i: usize = 0;
        while i < n
            invariant
                n == raw.items@.len(),
                i <= n,
                keys@.len() == i,
                forall|j: int| 0 <= j < i ==> keys@[j] == id_of_name(raw.items@[j].name@),
                distinct(keys@),
            decreases n - i,
        {
            let k = raw.items[i].id().raw();
            let mut j: usize = 0;
            while j < i
                invariant
                    n == raw.items@.len(),
                    i < n,
                    j <= i,
                    keys@.len() == i,
                    k == id_of_name(raw.items@[i as int].name@),
                    forall|t: int| 0 <= t < i ==> keys@[t] == id_of_name(raw.items@[t].name@),
                    forall|t: int| 0 <= t < j ==> keys@[t] != k,
                decreases i - j,
            {
                if keys[j] == k {
                    assert(item_ids(raw.entries())[j as int] == keys@[j as int]);
                    return Err(ItemConversionError::DuplicateId { first: j, second: i });
                }
                j = j + 1;
            }
            keys.push(k);
            i = i + 1;
        }
        assert(keys@ =~= item_ids(raw.entries()));
        assert forall|i: int| 0 <= i < keys@.len() implies keys@[i] == id_of_name(#[trigger] raw.items@[i].name@) by {}
        Ok(ItemManifest { keys, items: raw.items })
    }
}

/// Round trip: once a source with distinct identifiers is converted, looking
/// up the identifier of any of its items yields exactly that item, and the
/// table holds nothing else.
pub proof fn lemma_round_trip(entries: Seq<ItemView>, i: int)
    requires
        distinct(item_ids(entries)),
        0 <= i < entries.len(),
    ensures
        item_table(entries).contains_key(id_of_name(entries[i].name)),
        item_table(entries)[id_of_name(entries[i].name)] == entries[i],
        item_table(entries).dom() =~= item_ids(entries).to_set(),
{
    lemma_table_index(item_ids(entries), entries, i);
    lemma_table_dom(item_ids(entries), entries);
}

/// An identifier that no item of the source has is absent from the converted
/// table: looking it up gives nothing, and no default item.
pub proof fn lemma_absent_lookup(entries: Seq<ItemView>, k: u64)
    requires
        !item_ids(entries).contains(k),
    ensures
        !item_table(entries).contains_key(k),
{
    assert forall|i: int| 0 <= i < item_ids(entries).len() implies item_ids(entries)[i] != k by {
        if item_ids(entries)[i] == k {
            assert(item_ids(entries).contains(k));
        }
    }
    lemma_table_absent(item_ids(entries), entries, k);
}

/// Loading is deterministic: two sources that hold the same items give the
/// same identifiers, the same verdict on validity, and the same table.
pub proof fn lemma_load_deterministic(a: Seq<ItemView>, b: Seq<ItemView>)
    requires
        a =~= b,
    ensures
        item_ids(a) == item_ids(b),
        distinct(item_ids(a)) == distinct(item_ids(b)),
        item_table(a) == item_table(b),
{
}

} // verus!
