//! The typed store: a generic in-memory map that round-trips through the
//! container format of [`crate::format`].

use crate::error::StoreError;
use crate::format::{
    file_version, header_ok, is_zstd_stream, spec_header, validate_header, write_header,
    zstd_compress, zstd_compressed, zstd_decompress, FORMAT_VERSION, ZSTD_MAX, ZSTD_MIN,
};
use std::collections::HashMap;
use std::hash::Hash;
use vstd::prelude::*;
use vstd::slice::slice_subrange;
use vstd::std_specs::hash::{obeys_key_model, spec_hash_map_iter};
use vstd::std_specs::iter::IteratorSpec;

verus! {

broadcast use vstd::std_specs::hash::group_hash_axioms;

/// The compression level used when writing a container.
///
/// Any level between [`ZSTD_MIN`] and [`ZSTD_MAX`] is valid; constructing
/// a level outside that range clamps it to the nearest boundary and never
/// fails.
#[derive(Debug, Clone, Copy, PartialEq, Eq, Structural)]
pub struct CompressionLevel(i32);

impl CompressionLevel {
    #[verifier::type_invariant]
    spec fn wf(&self) -> bool {
        ZSTD_MIN <= self.0 <= ZSTD_MAX
    }

    /// The level as an integer, seen from specifications.
    pub closed spec fn spec_level(&self) -> i32 {
        self.0
    }

    /// Uses a custom compression level, clamping values outside the valid
    /// range to the nearest boundary.
    pub fn new(level: i32) -> (r: Self)
        ensures
            r.spec_level() == if level < ZSTD_MIN {
                ZSTD_MIN
            } else if level > ZSTD_MAX {
                ZSTD_MAX
            } else {
                level
            },
    {
        if level < ZSTD_MIN {
            CompressionLevel(ZSTD_MIN)
        } else if level > ZSTD_MAX {
            CompressionLevel(ZSTD_MAX)
        } else {
            CompressionLevel(level)
        }
    }

    /// The fastest level with the lowest ratio.
    pub fn fastest() -> (r: Self)
        ensures
            r.spec_level() == ZSTD_MIN,
    {
        CompressionLevel(ZSTD_MIN)
    }

    /// The slowest level with the highest ratio; suited to archival use.
    pub fn smallest_size() -> (r: Self)
        ensures
            r.spec_level() == ZSTD_MAX,
    {
        CompressionLevel(ZSTD_MAX)
    }

    /// A balance of compression speed and ratio.
    pub fn balanced() -> (r: Self)
        ensures
            r.spec_level() == 6,
    {
        CompressionLevel(6)
    }

    /// The level as an integer, guaranteed to lie in the valid range.
    pub fn level(&self) -> (r: i32)
        ensures
            r == self.spec_level(),
            ZSTD_MIN <= r <= ZSTD_MAX,
    {
        proof {
            use_type_invariant(self);
        }
        self.0
    }
}

impl Default for CompressionLevel {
    /// The recommended level for most uses: it favors speed with a
    /// reasonable ratio.
    fn default() -> (r: Self)
        ensures
            r.spec_level() == 3,
    {
        CompressionLevel(3)
    }
}

/// Where a store lives on disk and how hard its body is compressed.
///
/// Constructed by the caller before [`Store::new`] or [`Store::open`] and
/// immutable for the lifetime of a store; it is never persisted, so every
/// open supplies it afresh.
#[derive(Debug, Clone)]
pub struct StoreOptions {
    /// The location of the backing file, as understood by the embedding
    /// application.
    pub path: String,
    /// The level the compression codec is run at on save.
    pub compression_level: CompressionLevel,
}

impl StoreOptions {
    /// Options for the given path, at the default compression level.
    pub fn new(path: String) -> (r: Self)
        ensures
            r.path@ == path@,
            r.compression_level.spec_level() == 3,
    {
        StoreOptions { path, compression_level: Default::default() }
    }

    /// Replaces the compression level.
    pub fn set_compression_level(&mut self, level: CompressionLevel)
        ensures
            final(self).compression_level == level,
            final(self).path@ == old(self).path@,
    {
        self.compression_level = level;
    }

    /// Replaces the compression level, in builder style.
    pub fn with_compression_level(self, level: CompressionLevel) -> (r: Self)
        ensures
            r.compression_level == level,
            r.path@ == self.path@,
    {
        let mut r = self;
        r.set_compression_level(level);
        r
    }
}

impl Default for StoreOptions {
    /// Options with an empty path and the default compression level.
    fn default() -> (r: Self)
        ensures
            r.path@ == Seq::<char>::empty(),
            r.compression_level.spec_level() == 3,
    {
        StoreOptions { path: String::new(), compression_level: Default::default() }
    }
}

/// The map distilled from a document of records: each record inserted in
/// order, so that a later record for a key overwrites an earlier one.
pub open spec fn map_from_pairs<K, V>(doc: Seq<(K, V)>) -> Map<K, V>
    decreases doc.len(),
{
    if doc.len() == 0 {
        Map::empty()
    } else {
        map_from_pairs(doc.drop_last()).insert(doc.last().0, doc.last().1)
    }
}

/// True when `doc` lists exactly the pairs of `m`, each key once, in some
/// order.
pub open spec fn document_exact<K, V>(doc: Seq<(K, V)>, m: Map<K, V>) -> bool {
    &&& forall|i: int|
        #![trigger doc[i]]
        0 <= i < doc.len() ==> m.contains_key(doc[i].0) && m[doc[i].0] == doc[i].1
    &&& forall|i: int, j: int|
        #![trigger doc[i], doc[j]]
        0 <= i < j < doc.len() ==> doc[i].0 != doc[j].0
    &&& forall|k: K| #[trigger]
        m.contains_key(k) ==> exists|i: int| 0 <= i < doc.len() && (#[trigger] doc[i]).0 == k
}

/// The records of a document of borrowed pairs, by value.
pub open spec fn doc_view<K, V>(doc: Seq<(&K, &V)>) -> Seq<(K, V)> {
    doc.map_values(|p: (&K, &V)| (*p.0, *p.1))
}

/// Rebuilding a map from a document recovers exactly the map the document
/// was a snapshot of: for every finite set of records with unique keys,
/// inserting them in any order yields the map that lists those records and
/// no others.
pub proof fn lemma_document_round_trip<K, V>(doc: Seq<(K, V)>, m: Map<K, V>)
    requires
        document_exact(doc, m),
    ensures
        map_from_pairs(doc) == m,
    decreases doc.len(),
{
    if doc.len() == 0 {
        assert forall|k: K| !m.contains_key(k) by {
            if m.contains_key(k) {
                let i = choose|i: int| 0 <= i < doc.len() && (#[trigger] doc[i]).0 == k;
            }
        }
        assert(map_from_pairs(doc) =~= m);
    } else {
        let last = doc.last();
        let rest = doc.drop_last();
        let m1 = m.remove(last.0);
        assert(document_exact(rest, m1)) by {
            assert forall|i: int| #![trigger rest[i]] 0 <= i < rest.len()
                implies m1.contains_key(rest[i].0) && m1[rest[i].0] == rest[i].1 by {
                assert(rest[i] == doc[i]);
                assert(doc[i].0 != doc[doc.len() - 1].0);
            }
            assert forall|k: K| #[trigger] m1.contains_key(k)
                implies exists|i: int| 0 <= i < rest.len() && (#[trigger] rest[i]).0 == k by {
                let i = choose|i: int| 0 <= i < doc.len() && (#[trigger] doc[i]).0 == k;
                assert(doc[doc.len() - 1].0 == last.0);
                assert(i < doc.len() - 1);
                assert(rest[i] == doc[i]);
            }
        }
        lemma_document_round_trip(rest, m1);
        assert(doc[doc.len() - 1] == last);
        assert(m.contains_key(last.0) && m[last.0] == last.1);
        assert(map_from_pairs(doc) =~= m);
    }
}

/// What the map's iteration order yields — a sequence that lists every
/// pair of the map exactly once — is an exact document of the map.
proof fn lemma_snapshot_exact<K, V>(v: Seq<(&K, &V)>, rem: Seq<(&K, &V)>, m: Map<K, V>)
    requires
        v.len() == rem.len(),
        forall|i: int| 0 <= i < v.len() ==> #[trigger] v[i] == rem[i],
        rem.len() == m.dom().len(),
        forall|i: int|
            #![trigger rem[i]]
            0 <= i < rem.len() ==> m.contains_key(*rem[i].0) && m[*rem[i].0] == *rem[i].1,
        forall|k: K| #[trigger] m.contains_key(k) ==> rem.contains((&k, &m[k])),
        rem.no_duplicates(),
    ensures
        document_exact(doc_view(v), m),
{
    let dv = doc_view(v);
    assert forall|i: int| #![trigger dv[i]] 0 <= i < dv.len()
        implies m.contains_key(dv[i].0) && m[dv[i].0] == dv[i].1 by {
        assert(v[i] == rem[i]);
        assert(dv[i] == (*v[i].0, *v[i].1));
    }
    assert forall|i: int, j: int|
        #![trigger dv[i], dv[j]]
        0 <= i < j < dv.len() implies dv[i].0 != dv[j].0 by {
        if dv[i].0 == dv[j].0 {
            assert(dv[i] == (*v[i].0, *v[i].1));
            assert(dv[j] == (*v[j].0, *v[j].1));
            assert(v[i] == rem[i] && v[j] == rem[j]);
            assert(m[*rem[i].0] == *rem[i].1 && m[*rem[j].0] == *rem[j].1);
            assert(rem[i] == rem[j]);
            assert(false);
        }
    }
    assert forall|k: K| #[trigger] m.contains_key(k)
        implies exists|i: int| 0 <= i < dv.len() && (#[trigger] dv[i]).0 == k by {
        assert(rem.contains((&k, &m[k])));
        let i = choose|i: int| 0 <= i < rem.len() && rem[i] == (&k, &m[k]);
        assert(v[i] == rem[i]);
        assert(dv[i] == (*v[i].0, *v[i].1));
        assert(0 <= i < dv.len() && dv[i].0 == k);
    }
}

/// Relies on `rmp_serde::to_vec`: structured-encodes the document as a
/// byte stream. The stream's shape is the codec's own business; nothing is
/// assumed of it here.
#[verifier::external_body]
fn encode_document<K, V>(doc: &Vec<(&K, &V)>) -> (r: Result<
    Vec<u8>,
    rmp_serde::encode::Error,
>) where K: serde::Serialize, V: serde::Serialize {
    rmp_serde::to_vec(doc)
}

/// Relies on `rmp_serde::from_slice`: reconstructs a document from a byte
/// stream, or reports why it cannot. Nothing is assumed of the result;
/// whatever comes back is rebuilt into a map by [`Store::from_document`],
/// which is verified for every document.
#[verifier::external_body]
fn decode_document<K, V>(bytes: &[u8]) -> (r: Result<
    Vec<(K, V)>,
    rmp_serde::decode::Error,
>) where K: serde::de::DeserializeOwned, V: serde::de::DeserializeOwned {
    rmp_serde::from_slice(bytes)
}

/// `std::collections::hash_map::ValuesMut`, declared so that
/// [`Store::values_mut`] can hand it out; what is known of it is only what
/// [`map_values_mut`] states.
#[verifier::external_type_specification]
#[verifier::external_body]
#[verifier::reject_recursive_types(K)]
#[verifier::reject_recursive_types(V)]
pub struct ExValuesMut<'a, K: 'a, V: 'a>(std::collections::hash_map::ValuesMut<'a, K, V>);

/// Relies on `HashMap::get_mut`: yields a mutable reference to the value
/// stored under the key, if any; writing through it changes that entry and
/// no other.
#[verifier::external_body]
fn map_get_mut<'a, K: Eq + Hash, V>(m: &'a mut HashMap<K, V>, key: &K) -> (r: Option<&'a mut V>)
    requires
        obeys_key_model::<K>(),
    ensures
        match r {
            Some(v) => old(m)@.contains_key(*key) && *v == old(m)@[*key]
                && final(m)@ == old(m)@.insert(*key, *final(v)),
            None => !old(m)@.contains_key(*key) && final(m)@ == old(m)@,
        },
{
    m.get_mut(key)
}

/// Relies on `HashMap::values_mut`: an iterator of mutable references to
/// the values; it can change values but never the set of keys.
#[verifier::external_body]
fn map_values_mut<'a, K: Eq + Hash, V>(m: &'a mut HashMap<K, V>) -> (r:
    std::collections::hash_map::ValuesMut<'a, K, V>)
    ensures
        final(m)@.dom() == old(m)@.dom(),
{
    m.values_mut()
}

/// A mapping from keys to values that can be serialized into a versioned,
/// compressed container and reloaded.
///
/// The map is the sole authoritative state; the options only say where and
/// how it is persisted. Mutations touch memory alone — persistence happens
/// only on an explicit [`Store::save`].
#[derive(Debug)]
pub struct Store<K, V> where K: Eq + Hash {
    map: HashMap<K, V>,
    options: StoreOptions,
}

impl<K, V> View for Store<K, V> where K: Eq + Hash {
    type V = Map<K, V>;

    closed spec fn view(&self) -> Map<K, V> {
        self.map@
    }
}

impl<K, V> Store<K, V> where K: Eq + Hash {
    /// The configuration this store was constructed with.
    pub closed spec fn spec_options(&self) -> StoreOptions {
        self.options
    }

    /// An empty store with the given configuration. Never fails.
    pub fn new(options: StoreOptions) -> (r: Self)
        ensures
            r@ == Map::<K, V>::empty(),
            r.spec_options() == options,
    {
        Store { map: HashMap::new(), options }
    }

    /// Looks the key up, without touching the map.
    pub fn get(&self, key: &K) -> (r: Option<&V>)
        requires
            obeys_key_model::<K>(),
        ensures
            match r {
                Some(v) => self@.contains_key(*key) && *v == self@[*key],
                None => !self@.contains_key(*key),
            },
    {
        self.map.get(key)
    }

    /// Inserts or replaces; returns the previous value if the key existed.
    pub fn set(&mut self, key: K, value: V) -> (r: Option<V>)
        requires
            obeys_key_model::<K>(),
        ensures
            final(self)@ == old(self)@.insert(key, value),
            final(self).spec_options() == old(self).spec_options(),
            match r {
                Some(prior) => old(self)@.contains_key(key) && prior == old(self)@[key],
                None => !old(self)@.contains_key(key),
            },
    {
        self.map.insert(key, value)
    }

    /// Removes the key; returns the prior value if it was present.
    pub fn delete(&mut self, key: &K) -> (r: Option<V>)
        requires
            obeys_key_model::<K>(),
        ensures
            final(self)@ == old(self)@.remove(*key),
            final(self).spec_options() == old(self).spec_options(),
            match r {
                Some(prior) => old(self)@.contains_key(*key) && prior == old(self)@[*key],
                None => !old(self)@.contains_key(*key),
            },
    {
        self.map.remove(key)
    }

    /// Removes every entry; does not touch disk.
    pub fn clear(&mut self)
        ensures
            final(self)@ == Map::<K, V>::empty(),
            final(self).spec_options() == old(self).spec_options(),
    {
        self.map.clear()
    }

    /// True when the key is present.
    pub fn contains_key(&self, key: &K) -> (r: bool)
        requires
            obeys_key_model::<K>(),
        ensures
            r == self@.contains_key(*key),
    {
        self.map.contains_key(key)
    }

    /// The number of entries.
    pub fn len(&self) -> (r: usize)
        requires
            obeys_key_model::<K>(),
        ensures
            r == self@.len(),
    {
        self.map.len()
    }

    /// True when the store holds no entries.
    pub fn is_empty(&self) -> (r: bool)
        ensures
            r == self@.is_empty(),
    {
        self.map.is_empty()
    }

    /// The configuration this store was constructed with.
    pub fn options(&self) -> (r: &StoreOptions)
        ensures
            *r == self.spec_options(),
    {
        &self.options
    }

    /// Looks the key up for writing; the returned reference changes that
    /// entry alone.
    pub fn get_mut(&mut self, key: &K) -> (r: Option<&mut V>)
        requires
            obeys_key_model::<K>(),
        ensures
            match r {
                Some(v) => old(self)@.contains_key(*key) && *v == old(self)@[*key]
                    && final(self)@ == old(self)@.insert(*key, *final(v)),
                None => !old(self)@.contains_key(*key) && final(self)@ == old(self)@,
            },
            final(self).spec_options() == old(self).spec_options(),
    {
        map_get_mut(&mut self.map, key)
    }

    /// Iterates over the keys, in no particular order: every key exactly
    /// once.
    pub fn keys(&self) -> (r: std::collections::hash_map::Keys<'_, K, V>)
        requires
            obeys_key_model::<K>(),
        ensures
            r.remaining().len() == self@.dom().len(),
            r.remaining().no_duplicates(),
            r.remaining().unref().to_set() == self@.dom(),
    {
        self.map.keys()
    }

    /// Iterates over the values, in no particular order: one per entry.
    pub fn values(&self) -> (r: std::collections::hash_map::Values<'_, K, V>)
        requires
            obeys_key_model::<K>(),
        ensures
            r.remaining().len() == self@.dom().len(),
            r.remaining().unref().to_set() == self@.values(),
    {
        self.map.values()
    }

    /// Iterates over the values for writing: entries can change, the set
    /// of keys cannot.
    pub fn values_mut(&mut self) -> (r: std::collections::hash_map::ValuesMut<'_, K, V>)
        ensures
            final(self)@.dom() == old(self)@.dom(),
            final(self).spec_options() == old(self).spec_options(),
    {
        map_values_mut(&mut self.map)
    }

    /// Snapshots the map into a document: an ordered list of borrowed
    /// records, one per entry, copying no key or value data.
    pub fn to_document(&self) -> (doc: Vec<(&K, &V)>)
        requires
            obeys_key_model::<K>(),
        ensures
            document_exact(doc_view(doc@), self@),
    {
        let mut doc: Vec<(&K, &V)> = Vec::new();
        for pair in it: self.map.iter()
            invariant
                it.seq() == spec_hash_map_iter(&self.map).remaining(),
                doc@.len() == it.index(),
                forall|i: int| 0 <= i < doc@.len() ==> #[trigger] doc@[i] == it.seq()[i],
        {
            doc.push(pair);
        }
        proof {
            lemma_snapshot_exact(doc@, spec_hash_map_iter(&self.map).remaining(), self.map@);
        }
        doc
    }

    /// Builds a store holding exactly the map a document distills to:
    /// records are inserted in order, so a later record for a key
    /// overwrites an earlier one. Never fails.
    pub fn from_document(options: StoreOptions, doc: Vec<(K, V)>) -> (s: Self)
        requires
            obeys_key_model::<K>(),
        ensures
            s@ == map_from_pairs(doc@),
            s.spec_options() == options,
    {
        let ghost gdoc = doc@;
        let mut s = Store::new(options);
        for pair in it: doc.into_iter()
            invariant
                obeys_key_model::<K>(),
                it.seq() == gdoc,
                s@ == map_from_pairs(gdoc.subrange(0, it.index())),
                s.spec_options() == options,
        {
            proof {
                assert(gdoc.subrange(0, it.index() + 1).drop_last() =~= gdoc.subrange(
                    0,
                    it.index(),
                ));
                assert(gdoc.subrange(0, it.index() + 1).last() == pair);
            }
            let (k, v) = pair;
            let _ = s.set(k, v);
        }
        proof {
            assert(gdoc.subrange(0, gdoc.len() as int) =~= gdoc);
        }
        s
    }

    /// Serializes the store into a fresh container: the six header bytes,
    /// then the document, structured-encoded and compressed at the level
    /// the store was configured with. The store itself is untouched; on
    /// any failure no bytes are produced at all, so the caller can replace
    /// a previously persisted container atomically or not at all.
    pub fn save(&self) -> (r: Result<Vec<u8>, StoreError>) where
        K: serde::Serialize,
        V: serde::Serialize,

        requires
            obeys_key_model::<K>(),
        ensures
            r matches Ok(bytes) ==> {
                &&& bytes@.len() >= 6
                &&& bytes@.subrange(0, 6) == spec_header()
                &&& is_zstd_stream(bytes@.skip(6))
                &&& exists|body: Seq<u8>|
                    bytes@.skip(6) == zstd_compressed(
                        body,
                        self.spec_options().compression_level.spec_level() as int,
                    )
            },
    {
        let doc = self.to_document();
        let body = match encode_document(&doc) {
            Ok(b) => b,
            Err(e) => {
                return Err(StoreError::Encode(e));
            },
        };
        let level = self.options.compression_level.level();
        let compressed = match zstd_compress(body.as_slice(), level) {
            Ok(c) => c,
            Err(e) => {
                return Err(StoreError::Io(e));
            },
        };
        let mut out: Vec<u8> = Vec::new();
        write_header(&mut out);
        let mut tail = compressed;
        out.append(&mut tail);
        proof {
            assert(out@.subrange(0, 6) =~= spec_header());
            assert(out@.skip(6) =~= zstd_compressed(body@, level as int));
            assert(level as int == self.spec_options().compression_level.spec_level() as int);
            assert(exists|b: Seq<u8>|
                out@.skip(6) == zstd_compressed(
                    b,
                    self.spec_options().compression_level.spec_level() as int,
                ));
            assert(is_zstd_stream(out@.skip(6)));
        }
        Ok(out)
    }

    /// Reconstructs a store from the contents of its backing file, or from
    /// nothing: a missing file (`None`) is not an error, it is an empty
    /// store — a first run always starts empty. Otherwise the header is
    /// validated, the body decompressed and decoded, and the map rebuilt
    /// by inserting each record in order.
    pub fn open(options: StoreOptions, contents: Option<Vec<u8>>) -> (r: Result<
        Self,
        StoreError,
    >) where K: serde::de::DeserializeOwned, V: serde::de::DeserializeOwned

        requires
            obeys_key_model::<K>(),
        ensures
            contents is None ==> (r matches Ok(s) && s@ == Map::<K, V>::empty()
                && s.spec_options() == options),
            contents matches Some(b) ==> match r {
                Ok(s) => header_ok(b@) && file_version(b@) == FORMAT_VERSION
                    && s.spec_options() == options,
                Err(e) => match e {
                    StoreError::InvalidFile => !header_ok(b@),
                    StoreError::WrongVersion { expected, actual } => {
                        &&& header_ok(b@)
                        &&& expected == FORMAT_VERSION
                        &&& actual == file_version(b@)
                        &&& actual != FORMAT_VERSION
                    },
                    StoreError::Io(_) => header_ok(b@) && file_version(b@) == FORMAT_VERSION
                        && !is_zstd_stream(b@.skip(6)),
                    StoreError::Decode(_) => header_ok(b@) && file_version(b@) == FORMAT_VERSION,
                    StoreError::Encode(_) => false,
                },
            },
    {
        match contents {
            None => Ok(Store::new(options)),
            Some(bytes) => {
                match validate_header(&bytes) {
                    Err(e) => {
                        return Err(e);
                    },
                    Ok(()) => {},
                }
                let payload = slice_subrange(bytes.as_slice(), 6, bytes.len());
                let body = match zstd_decompress(payload) {
                    Ok(b) => b,
                    Err(e) => {
                        return Err(StoreError::Io(e));
                    },
                };
                let doc: Vec<(K, V)> = match decode_document(body.as_slice()) {
                    Ok(d) => d,
                    Err(e) => {
                        return Err(StoreError::Decode(e));
                    },
                };
                Ok(Store::from_document(options, doc))
            },
        }
    }
}

} // verus!
