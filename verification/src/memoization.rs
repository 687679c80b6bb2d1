//! Memoization of immutable Git facts (ancestry, merge bases, tree ids, ...)
//! behind a pluggable store.

use vstd::prelude::*;
use vstd::string::StringSliceAdditionalSpecFns;
use vstd::rwlock::{RwLock, RwLockPredicate};
use std::collections::HashMap;
use std::sync::Arc;
use sha2::Digest;

verus! {

/// Keys of immutable operations whose results can be memoized.
#[derive(Debug, Clone, PartialEq, Eq, Hash)]
pub enum MemoKey {
    /// Ancestry reachability between two commit OIDs.
    Ancestry { ancestor: String, descendant: String },
    /// Merge base of two commit OIDs.
    MergeBase { a: String, b: String },
    /// Patch ID of the diff between two commit OIDs.
    PatchId { base: String, tip: String },
    /// Tree OID of a commit OID.
    TreeId { commit: String },
    /// Object format of the repository ("sha1" or "sha256").
    ObjectFormat,
    /// Git object hash of content, keyed by the SHA-256 of the content.
    HashData { content_sha: String },
    /// Commit OID that a revision resolves to.
    ResolveCommit { rev: String },
    /// OID that a revision resolves to, or none.
    ResolveRef { rev: String },
    /// Full refname of a symbolic name.
    ResolveSymbolic { name: String },
}

/// A memoized value.
#[derive(Debug, Clone, PartialEq, Eq)]
pub enum MemoValue {
    Bool(bool),
    Text(String),
    NoneText,
}

impl MemoValue {
    /// The flag, for a `Bool` value.
    pub fn into_bool(self) -> (r: Option<bool>)
        ensures
            r == (match self {
                MemoValue::Bool(b) => Some(b),
                _ => None,
            }),
    {
        match self {
            MemoValue::Bool(b) => Some(b),
            _ => None,
        }
    }

    /// The text, for a `Text` value.
    pub fn into_text(self) -> (r: Option<String>)
        ensures
            r == (match self {
                MemoValue::Text(s) => Some(s),
                _ => None,
            }),
    {
        match self {
            MemoValue::Text(s) => Some(s),
            _ => None,
        }
    }

    /// The optional text, for a `Text` or `NoneText` value.
    pub fn into_opt_text(self) -> (r: Option<Option<String>>)
        ensures
            r == (match self {
                MemoValue::Text(s) => Some(Some(s)),
                MemoValue::NoneText => Some(None::<String>),
                _ => None,
            }),
    {
        match self {
            MemoValue::Text(s) => Some(Some(s)),
            MemoValue::NoneText => Some(None),
            _ => None,
        }
    }

    /// A `Bool` value.
    pub fn from_bool(b: bool) -> (r: Self)
        ensures
            r == MemoValue::Bool(b),
    {
        MemoValue::Bool(b)
    }

    /// A `Text` value.
    pub fn from_text(s: String) -> (r: Self)
        ensures
            r == MemoValue::Text(s),
    {
        MemoValue::Text(s)
    }

    /// `Text` for some text, `NoneText` for none.
    pub fn from_opt_text(s: Option<String>) -> (r: Self)
        ensures
            r == (match s {
                Some(t) => MemoValue::Text(t),
                None => MemoValue::NoneText,
            }),
    {
        match s {
            Some(s) => MemoValue::Text(s),
            None => MemoValue::NoneText,
        }
    }
}

/// Values that can be memoized, with their encoding as a [`MemoValue`].
pub trait Memoizable: Sized {
    spec fn spec_encode(self) -> MemoValue;

    spec fn spec_decode(v: MemoValue) -> Option<Self>;

    fn to_value(self) -> (v: MemoValue)
        ensures
            v == self.spec_encode();

    fn from_value(v: MemoValue) -> (r: Option<Self>)
        ensures
            r == Self::spec_decode(v);

    fn copy_value(&self) -> (r: Self)
        ensures
            r == *self;
}

impl Memoizable for bool {
    open spec fn spec_encode(self) -> MemoValue {
        MemoValue::Bool(self)
    }

    open spec fn spec_decode(v: MemoValue) -> Option<bool> {
        match v {
            MemoValue::Bool(b) => Some(b),
            _ => None,
        }
    }

    fn to_value(self) -> (v: MemoValue) {
        MemoValue::from_bool(self)
    }

    fn from_value(v: MemoValue) -> (r: Option<bool>) {
        v.into_bool()
    }

    fn copy_value(&self) -> (r: bool) {
        *self
    }
}

impl Memoizable for String {
    open spec fn spec_encode(self) -> MemoValue {
        MemoValue::Text(self)
    }

    open spec fn spec_decode(v: MemoValue) -> Option<String> {
        match v {
            MemoValue::Text(s) => Some(s),
            _ => None,
        }
    }

    fn to_value(self) -> (v: MemoValue) {
        MemoValue::from_text(self)
    }

    fn from_value(v: MemoValue) -> (r: Option<String>) {
        v.into_text()
    }

    fn copy_value(&self) -> (r: String) {
        self.clone()
    }
}

impl Memoizable for Option<String> {
    open spec fn spec_encode(self) -> MemoValue {
        match self {
            Some(t) => MemoValue::Text(t),
            None => MemoValue::NoneText,
        }
    }

    open spec fn spec_decode(v: MemoValue) -> Option<Option<String>> {
        match v {
            MemoValue::Text(s) => Some(Some(s)),
            MemoValue::NoneText => Some(None),
            _ => None,
        }
    }

    fn to_value(self) -> (v: MemoValue) {
        MemoValue::from_opt_text(self)
    }

    fn from_value(v: MemoValue) -> (r: Option<Option<String>>) {
        v.into_opt_text()
    }

    fn copy_value(&self) -> (r: Option<String>) {
        match self {
            Some(s) => Some(s.clone()),
            None => None,
        }
    }
}

/// A store of memoized values. Implementations may share their contents with
/// other processes, so nothing is assumed of what `get` returns.
pub trait MemoizationStore: Send + Sync {
    fn get(&self, key: &MemoKey) -> Option<MemoValue>;

    fn put(&self, key: MemoKey, value: MemoValue);

    fn clear(&self);
}

impl<S: MemoizationStore> MemoizationStore for Arc<S> {
    fn get(&self, key: &MemoKey) -> Option<MemoValue> {
        (**self).get(key)
    }

    fn put(&self, key: MemoKey, value: MemoValue) {
        (**self).put(key, value)
    }

    fn clear(&self) {
        (**self).clear()
    }
}

/// Any cache contents are acceptable to the lock of the in-process store.
pub struct AnyCache;

impl RwLockPredicate<HashMap<MemoKey, MemoValue>> for AnyCache {
    open spec fn inv(self, v: HashMap<MemoKey, MemoValue>) -> bool {
        true
    }
}

/// A thread-safe memoization store held in this process.
#[derive(Clone)]
pub struct InProcessMemoStore {
    cache: Arc<RwLock<HashMap<MemoKey, MemoValue>, AnyCache>>,
}

impl InProcessMemoStore {
    /// An empty store.
    pub fn new() -> (s: Self) {
        let lock = RwLock::new(HashMap::new(), Ghost(AnyCache));
        InProcessMemoStore { cache: Arc::new(lock) }
    }
}

impl MemoizationStore for InProcessMemoStore {
    fn get(&self, key: &MemoKey) -> Option<MemoValue> {
        let handle = self.cache.acquire_read();
        let found = match handle.borrow().get(key) {
            Some(v) => Some(v.clone()),
            None => None,
        };
        handle.release_read();
        found
    }

    fn put(&self, key: MemoKey, value: MemoValue) {
        let (mut map, handle) = self.cache.acquire_write();
        map.insert(key, value);
        handle.release_write(map);
    }

    fn clear(&self) {
        let (mut map, handle) = self.cache.acquire_write();
        map.clear();
        handle.release_write(map);
    }
}

/// Memoizes immutable Git facts through a store.
pub struct Memoizer {
    store: Box<dyn MemoizationStore>,
}

impl Default for Memoizer {
    fn default() -> (m: Self) {
        Memoizer::new()
    }
}

/// The SHA-256 digest of the bytes `data`, in lower-case hex.
pub uninterp spec fn sha256_hex(data: Seq<u8>) -> Seq<char>;

/// Calls `sha2::Sha256::digest` on `data` and formats the digest in
/// lower-case hex; the result is named [`sha256_hex`] of `data`.
#[verifier::external_body]
pub(crate) fn sha256_hex_of(data: &[u8]) -> (r: String)
    ensures
        r@ == sha256_hex(data@),
{
    format!("{:x}", sha2::Sha256::digest(data))
}

impl Memoizer {
    /// A memoizer over a fresh in-process store.
    pub fn new() -> (m: Self) {
        let store = InProcessMemoStore::new();
        Memoizer { store: Box::new(store) }
    }

    /// A memoizer over the given shared store.
    pub fn with_store<S: MemoizationStore + 'static>(store: Arc<S>) -> (m: Self) {
        Memoizer { store: Box::new(store) }
    }

    /// The key of a pending operation.
    pub fn op<V: Memoizable>(&self, key: MemoKey) -> (op: MemoOp<'_, V>)
        ensures
            op.key == key,
    {
        MemoOp { memoizer: self, key, marker: core::marker::PhantomData }
    }

    #[allow(non_snake_case)]
    pub fn Ancestry(&self, ancestor: String, descendant: String) -> (op: MemoOp<'_, bool>)
        ensures
            op.key == (MemoKey::Ancestry { ancestor, descendant }),
    {
        self.op(MemoKey::Ancestry { ancestor, descendant })
    }

    #[allow(non_snake_case)]
    pub fn MergeBase(&self, a: String, b: String) -> (op: MemoOp<'_, String>)
        ensures
            op.key == (MemoKey::MergeBase { a, b }),
    {
        self.op(MemoKey::MergeBase { a, b })
    }

    #[allow(non_snake_case)]
    pub fn PatchId(&self, base: String, tip: String) -> (op: MemoOp<'_, String>)
        ensures
            op.key == (MemoKey::PatchId { base, tip }),
    {
        self.op(MemoKey::PatchId { base, tip })
    }

    #[allow(non_snake_case)]
    pub fn TreeId(&self, commit: String) -> (op: MemoOp<'_, String>)
        ensures
            op.key == (MemoKey::TreeId { commit }),
    {
        self.op(MemoKey::TreeId { commit })
    }

    #[allow(non_snake_case)]
    pub fn ObjectFormat(&self) -> (op: MemoOp<'_, String>)
        ensures
            op.key == MemoKey::ObjectFormat,
    {
        self.op(MemoKey::ObjectFormat)
    }

    #[allow(non_snake_case)]
    pub fn ResolveCommit(&self, rev: String) -> (op: MemoOp<'_, String>)
        ensures
            op.key == (MemoKey::ResolveCommit { rev }),
    {
        self.op(MemoKey::ResolveCommit { rev })
    }

    #[allow(non_snake_case)]
    pub fn ResolveRef(&self, rev: String) -> (op: MemoOp<'_, Option<String>>)
        ensures
            op.key == (MemoKey::ResolveRef { rev }),
    {
        self.op(MemoKey::ResolveRef { rev })
    }

    #[allow(non_snake_case)]
    pub fn ResolveSymbolic(&self, name: String) -> (op: MemoOp<'_, String>)
        ensures
            op.key == (MemoKey::ResolveSymbolic { name }),
    {
        self.op(MemoKey::ResolveSymbolic { name })
    }

    /// The memoized Git hash of `data`, keyed by the SHA-256 of `data`.
    pub fn hash_data(&self, data: &str) -> (op: MemoOp<'_, String>)
        ensures
            op.key matches MemoKey::HashData { content_sha } && content_sha@ == sha256_hex(data.spec_bytes()),
    {
        let content_sha = sha256_hex_of(data.as_bytes());
        self.op(MemoKey::HashData { content_sha })
    }

    /// Raw lookup of `key` in the store.
    pub fn get(&self, key: &MemoKey) -> Option<MemoValue> {
        self.store.get(key)
    }

    /// Raw write of `key` in the store.
    pub fn put(&self, key: MemoKey, value: MemoValue) {
        self.store.put(key, value)
    }

    /// Forgets every memoized value.
    pub fn clear(&self) {
        self.store.clear();
    }
}

/// A pending memoization: a key and the type of its value.
pub struct MemoOp<'a, V> {
    pub memoizer: &'a Memoizer,
    pub key: MemoKey,
    pub marker: core::marker::PhantomData<V>,
}

impl<'a, V: Memoizable> MemoOp<'a, V> {
    /// The memoized value, when the store holds one of the right kind.
    pub fn get(&self) -> (r: Option<V>)
        ensures
            r matches Some(v) ==> exists|m: MemoValue| V::spec_decode(m) == Some(v),
    {
        match self.memoizer.store.get(&self.key) {
            Some(m) => V::from_value(m),
            None => None,
        }
    }

    /// Memoizes `value` under the key.
    pub fn put(&self, value: V) {
        self.memoizer.store.put(self.key.clone(), value.to_value());
    }

    /// The memoized value, or else the result of `f`, which is memoized when `f` succeeds.
    pub fn get_or_compute<F, E>(&self, f: F) -> (r: core::result::Result<V, E>)
        where
            F: FnOnce() -> core::result::Result<V, E>,
        requires
            f.requires(()),
        ensures
            r matches Err(e) ==> f.ensures((), Err(e)),
            r matches Ok(v) ==> f.ensures((), Ok(v)) || exists|m: MemoValue| V::spec_decode(m) == Some(v),
    {
        match self.get() {
            Some(v) => return Ok(v),
            None => {},
        }
        let v = f()?;
        self.put(v.copy_value());
        Ok(v)
    }
}

} // verus!
