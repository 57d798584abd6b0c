//! Stable, typed identifiers derived from a human-readable name.
use core::marker::PhantomData;
use vstd::prelude::*;
use vstd::string::StringSliceAdditionalSpecFns;
use vstd::utf8::encode_utf8;

verus! {

/// Multiplier of the polynomial name hash.
pub const HASH_BASE: u64 = 53;

/// Prime modulus of the polynomial name hash; every identifier made from a
/// name lies below it.
pub const HASH_MODULUS: u64 = 1_000_000_009;

/// The running state `(value, power)` of the name hash after reading `b`:
/// `value` is the sum over `i` of `(b[i] + 1) * HASH_BASE^i`, and `power` is
/// `HASH_BASE^b.len()`, both reduced modulo `HASH_MODULUS` after each step.
pub open spec fn hash_state(b: Seq<u8>) -> (int, int)
    decreases b.len(),
{
    if b.len() == 0 {
        (0, 1)
    } else {
        let prev = hash_state(b.drop_last());
        (
            (prev.0 + (b.last() as int + 1) * prev.1) % (HASH_MODULUS as int),
            (prev.1 * (HASH_BASE as int)) % (HASH_MODULUS as int),
        )
    }
}

/// The identifier value that a name with UTF-8 bytes `b` maps to.
pub open spec fn name_hash(b: Seq<u8>) -> u64 {
    hash_state(b).0 as u64
}

/// The identifier value that a name made of the characters `name` maps to.
pub open spec fn id_of_name(name: Seq<char>) -> u64 {
    name_hash(encode_utf8(name))
}

/// Relies on leafwing_manifest's `Id::from_name`, which folds the name's UTF-8
/// bytes into the polynomial hash that `hash_state` describes.
#[verifier::external_body]
fn hash_of_name(name: &str) -> (r: u64)
    ensures
        r == name_hash(name.spec_bytes()),
{
    leafwing_manifest::identifier::Id::<()>::from_name(name).raw()
}

/// An identifier of one canonical definition of entity type `T`.
///
/// Identifiers of different entity types have different Rust types, so they
/// cannot be mixed up even where their values coincide.
#[derive(Debug)]
pub struct Id<T> {
    value: u64,
    marker: PhantomData<T>,
}

impl<T> View for Id<T> {
    type V = u64;

    closed spec fn view(&self) -> u64 {
        self.value
    }
}

impl<T> Id<T> {
    /// The identifier derived from a name. The same name gives the same
    /// identifier in every process and on every machine.
    pub fn from_name(name: &str) -> (r: Id<T>)
        ensures
            r@ == id_of_name(name@),
    {
        Id { value: hash_of_name(name), marker: PhantomData }
    }

    /// The identifier with the given raw value.
    pub fn from_raw(value: u64) -> (r: Id<T>)
        ensures
            r@ == value,
    {
        Id { value, marker: PhantomData }
    }

    /// The raw value of this identifier.
    pub fn raw(&self) -> (r: u64)
        ensures
            r == self@,
    {
        self.value
    }
}

impl<T> Clone for Id<T> {
    fn clone(&self) -> (r: Self)
        ensures
            r@ == self@,
    {
        Id { value: self.value, marker: PhantomData }
    }
}

impl<T> PartialEq for Id<T> {
    fn eq(&self, other: &Self) -> (r: bool)
        ensures
            r == (self@ == other@),
    {
        self.value == other.value
    }
}

impl<T> vstd::std_specs::cmp::PartialEqSpecImpl for Id<T> {
    open spec fn obeys_eq_spec() -> bool {
        true
    }

    open spec fn eq_spec(&self, other: &Self) -> bool {
        self@ == other@
    }
}

impl<T> Eq for Id<T> {
}

} // verus!
