//! The target-key list of a mapping, kept in smallvec's `SmallVec`.

use vstd::prelude::*;
use smallvec::SmallVec;

verus! {

/// The target keys of a key mapping (inline capacity of four, as a `SmallVec`).
#[verifier::external_body]
#[derive(Debug)]
pub struct TargetKeys {
    inner: SmallVec<[String; 4]>,
}

/// The keys held, in order, each by its characters.
pub uninterp spec fn target_keys_contents(v: TargetKeys) -> Seq<Seq<char>>;

impl TargetKeys {
    /// The keys held, in order.
    pub open spec fn contents(&self) -> Seq<Seq<char>> {
        target_keys_contents(*self)
    }

    /// An empty list. Calls `SmallVec::new`, whose result holds no item.
    #[verifier::external_body]
    pub fn new() -> (r: Self)
        ensures
            target_keys_contents(r) == Seq::<Seq<char>>::empty(),
    {
        TargetKeys { inner: SmallVec::new() }
    }

    /// A list holding the items of `v` in order. Calls `SmallVec::from_vec`, which
    /// takes over the vector's items unchanged.
    #[verifier::external_body]
    pub fn from_vec(v: Vec<String>) -> (r: Self)
        ensures
            target_keys_contents(r) == v@.map_values(|s: String| s@),
    {
        TargetKeys { inner: SmallVec::from_vec(v) }
    }

    /// The number of keys. Calls `SmallVec::len`.
    #[verifier::external_body]
    pub fn len(&self) -> (n: usize)
        ensures
            n == target_keys_contents(*self).len(),
    {
        self.inner.len()
    }

    /// A copy of the key at `i` (index of the slice `SmallVec` derefs to, then `clone`).
    #[verifier::external_body]
    pub fn get(&self, i: usize) -> (r: String)
        requires
            i < target_keys_contents(*self).len(),
        ensures
            r@ == target_keys_contents(*self)[i as int],
    {
        self.inner[i].clone()
    }

    /// Appends `key` at the end. Calls `SmallVec::push`.
    #[verifier::external_body]
    pub fn push(&mut self, key: String)
        ensures
            target_keys_contents(*final(self)) == target_keys_contents(*old(self)).push(key@),
    {
        self.inner.push(key);
    }

    /// Removes every key equal to `key`, keeping the others in order.
    /// Calls `SmallVec::retain`; the closure keeps a key where the verified
    /// `str_ne` says it differs from `key`.
    #[verifier::external_body]
    pub fn retain_not_equal(&mut self, key: &str)
        ensures
            target_keys_contents(*final(self)) == target_keys_contents(*old(self)).filter(
                |k: Seq<char>| k != key@,
            ),
    {
        self.inner.retain(|k| crate::text::str_ne(k.as_str(), key));
    }

    /// The keys as a slice (the slice `SmallVec::as_slice` returns).
    #[verifier::external_body]
    pub fn as_slice(&self) -> (r: &[String])
        ensures
            r@.map_values(|s: String| s@) == target_keys_contents(*self),
    {
        self.inner.as_slice()
    }

    /// Removes every key. Calls `SmallVec::clear`.
    #[verifier::external_body]
    pub fn clear(&mut self)
        ensures
            target_keys_contents(*final(self)) == Seq::<Seq<char>>::empty(),
    {
        self.inner.clear();
    }

    /// An independent list with the same keys. Calls `SmallVec::clone`.
    #[verifier::external_body]
    pub fn duplicate(&self) -> (r: Self)
        ensures
            target_keys_contents(r) == target_keys_contents(*self),
    {
        TargetKeys { inner: self.inner.clone() }
    }

    /// Whether some key equals `key`.
    pub fn contains(&self, key: &str) -> (r: bool)
        ensures
            r == self.contents().contains(key@),
    {
        let n = self.len();
        let mut i: usize = 0;
        while i < n
            invariant
                n == self.contents().len(),
                i <= n,
                forall|j: int| 0 <= j < i ==> self.contents()[j] != key@,
            decreases n - i,
        {
            let k = self.get(i);
            if crate::text::str_eq(k.as_str(), key) {
                assert(self.contents()[i as int] == key@);
                return true;
            }
            i = i + 1;
        }
        false
    }

    /// Whether both lists hold the same keys in the same order.
    pub fn same_keys(&self, other: &TargetKeys) -> (r: bool)
        ensures
            r == (self.contents() == other.contents()),
    {
        let n = self.len();
        if n != other.len() {
            return false;
        }
        let mut i: usize = 0;
        while i < n
            invariant
                n == self.contents().len(),
                n == other.contents().len(),
                i <= n,
                forall|j: int| 0 <= j < i ==> self.contents()[j] == other.contents()[j],
            decreases n - i,
        {
            let a = self.get(i);
            let b = other.get(i);
            if !crate::text::str_eq(a.as_str(), b.as_str()) {
                return false;
            }
            i = i + 1;
        }
        assert(self.contents() == other.contents());
        true
    }

    /// The keys as an ordinary vector.
    pub fn to_vec(&self) -> (r: Vec<String>)
        ensures
            r@.map_values(|s: String| s@) == self.contents(),
    {
        let n = self.len();
        let mut v: Vec<String> = Vec::new();
        let mut i: usize = 0;
        while i < n
            invariant
                n == self.contents().len(),
                i <= n,
                v@.map_values(|s: String| s@) == self.contents().subrange(0, i as int),
            decreases n - i,
        {
            let k = self.get(i);
            let ghost prev = v@;
            v.push(k);
            assert(v@.map_values(|s: String| s@) =~= prev.map_values(|s: String| s@).push(k@));
            assert(self.contents().subrange(0, i + 1) =~= self.contents().subrange(0, i as int).push(self.contents()[i as int]));
            i = i + 1;
        }
        assert(self.contents().subrange(0, n as int) == self.contents());
        v
    }
}

impl Clone for TargetKeys {
    fn clone(&self) -> Self {
        self.duplicate()
    }
}

} // verus!
