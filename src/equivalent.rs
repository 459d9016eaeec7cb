use vstd::prelude::*;

verus! {

/// A key type of the cache: two keys are the same exactly when their views
/// are equal.
pub trait CacheKey: View + Sized {
    /// Returns `true` if `self` and `other` are the same key.
    fn same_key(&self, other: &Self) -> (r: bool)
        ensures
            r == (self@ == other@),
    ;
}

/// A probe that can be compared against a stored key of type `K`, without
/// being an owned `K` itself (such as `str` for `String` keys).
///
/// The probe stands for the key whose view is `probe()`, and is equivalent to
/// a stored key exactly when that key has this view.
pub trait Equivalent<K: View> {
    /// The view of the key that this probe stands for.
    spec fn probe(&self) -> K::V;

    /// Returns `true` if the probe is equivalent to `k`.
    fn equivalent(&self, k: &K) -> (r: bool)
        ensures
            r == (self.probe() == k@),
    ;
}

/// Every key is a probe for keys of its own type.
impl<K: CacheKey> Equivalent<K> for K {
    open spec fn probe(&self) -> K::V {
        self@
    }

    fn equivalent(&self, k: &K) -> (r: bool) {
        self.same_key(k)
    }
}

impl CacheKey for u8 {
    fn same_key(&self, other: &u8) -> (r: bool) {
        *self == *other
    }
}

impl CacheKey for u16 {
    fn same_key(&self, other: &u16) -> (r: bool) {
        *self == *other
    }
}

impl CacheKey for u32 {
    fn same_key(&self, other: &u32) -> (r: bool) {
        *self == *other
    }
}

impl CacheKey for u64 {
    fn same_key(&self, other: &u64) -> (r: bool) {
        *self == *other
    }
}

impl CacheKey for u128 {
    fn same_key(&self, other: &u128) -> (r: bool) {
        *self == *other
    }
}

impl CacheKey for usize {
    fn same_key(&self, other: &usize) -> (r: bool) {
        *self == *other
    }
}

impl CacheKey for i8 {
    fn same_key(&self, other: &i8) -> (r: bool) {
        *self == *other
    }
}

impl CacheKey for i16 {
    fn same_key(&self, other: &i16) -> (r: bool) {
        *self == *other
    }
}

impl CacheKey for i32 {
    fn same_key(&self, other: &i32) -> (r: bool) {
        *self == *other
    }
}

impl CacheKey for i64 {
    fn same_key(&self, other: &i64) -> (r: bool) {
        *self == *other
    }
}

impl CacheKey for i128 {
    fn same_key(&self, other: &i128) -> (r: bool) {
        *self == *other
    }
}

impl CacheKey for isize {
    fn same_key(&self, other: &isize) -> (r: bool) {
        *self == *other
    }
}

impl CacheKey for bool {
    fn same_key(&self, other: &bool) -> (r: bool) {
        *self == *other
    }
}

impl CacheKey for char {
    fn same_key(&self, other: &char) -> (r: bool) {
        *self == *other
    }
}

impl CacheKey for String {
    fn same_key(&self, other: &String) -> (r: bool) {
        *self == *other
    }
}

/// A borrowed string slice probes a cache keyed by owned strings.
impl Equivalent<String> for str {
    open spec fn probe(&self) -> Seq<char> {
        self@
    }

    fn equivalent(&self, k: &String) -> (r: bool) {
        str_eq(self, k.as_str())
    }
}

/// Relies on `<str as PartialEq>::eq`: two string slices are equal exactly
/// when they hold the same characters.
#[verifier::external_body]
fn str_eq(a: &str, b: &str) -> (r: bool)
    ensures
        r == (a@ == b@),
{
    a == b
}

} // verus!
