use vstd::prelude::*;
use crate::module::{CustomMetaValue, ModuleId};
use vstd::utf8::{decode_utf8, encode_utf8, encode_utf8_decode_utf8, encode_utf8_valid_utf8, valid_utf8};
use crate::plugin::CompilationError;

verus! {

/// The version written at the head of each cache record; a record of another
/// version is not read.
pub const CACHE_VERSION: u32 = 1;

/// The four bytes of a number, least significant first.
pub open spec fn le_bytes(x: u32) -> Seq<u8> {
    seq![(x % 256) as u8, ((x / 256) % 256) as u8, ((x / 65536) % 256) as u8, (x / 16777216) as u8]
}

/// The number that four bytes hold, least significant first.
pub open spec fn le_value(b: Seq<u8>) -> int {
    b[0] as int + 256 * b[1] as int + 65536 * b[2] as int + 16777216 * b[3] as int
}

/// A record: the version, the length of the payload, then the payload.
pub open spec fn record_spec(payload: Seq<u8>) -> Seq<u8> {
    le_bytes(CACHE_VERSION) + le_bytes(payload.len() as u32) + payload
}

/// The payload of a record, or `None` where the bytes are not a whole record
/// of the current version.
pub open spec fn read_record_spec(bytes: Seq<u8>) -> Option<Seq<u8>> {
    if bytes.len() >= 8 && le_value(bytes.subrange(0, 4)) == CACHE_VERSION
        && le_value(bytes.subrange(4, 8)) == bytes.len() - 8 {
        Some(bytes.subrange(8, bytes.len() as int))
    } else {
        None
    }
}

fn push_le(out: &mut Vec<u8>, x: u32)
    ensures
        final(out)@ == old(out)@ + le_bytes(x),
{
    out.push((x % 256) as u8);
    out.push(((x / 256) % 256) as u8);
    out.push(((x / 65536) % 256) as u8);
    out.push((x / 16777216) as u8);
    assert(final(out)@ =~= old(out)@ + le_bytes(x));
}

fn read_le(b: &Vec<u8>, at: usize) -> (r: u32)
    requires
        at + 4 <= b@.len(),
    ensures
        r == le_value(b@.subrange(at as int, at + 4)),
{
    let n = b.len();
    assert(at + 4 <= n);
    let b0 = b[at] as u64;
    let b1 = b[at + 1] as u64;
    let b2 = b[at + 2] as u64;
    let b3 = b[at + 3] as u64;
    assert(b0 + 256 * b1 + 65536 * b2 + 16777216 * b3 < 4294967296) by (nonlinear_arith)
        requires
            b0 < 256,
            b1 < 256,
            b2 < 256,
            b3 < 256,
    ;
    let v: u64 = b0 + 256 * b1 + 65536 * b2 + 16777216 * b3;
    v as u32
}

/// Frames a payload as a cache record.
pub fn write_record(payload: &Vec<u8>) -> (r: Vec<u8>)
    requires
        payload@.len() <= u32::MAX,
    ensures
        r@ == record_spec(payload@),
{
    let mut out: Vec<u8> = Vec::new();
    push_le(&mut out, CACHE_VERSION);
    push_le(&mut out, payload.len() as u32);
    let mut i: usize = 0;
    while i < payload.len()
        invariant
            i <= payload@.len(),
            out@ == le_bytes(CACHE_VERSION) + le_bytes(payload@.len() as u32) + payload@.subrange(0, i as int),
        decreases payload.len() - i,
    {
        out.push(payload[i]);
        assert(payload@.subrange(0, i + 1) =~= payload@.subrange(0, i as int).push(payload@[i as int]));
        i = i + 1;
    }
    assert(payload@.subrange(0, payload@.len() as int) =~= payload@);
    out
}

/// The payload of a cache record, or `None` where the bytes are cut short,
/// of another version or of a wrong length.
pub fn read_record(bytes: &Vec<u8>) -> (r: Option<Vec<u8>>)
    ensures
        r matches Some(p) ==> read_record_spec(bytes@) == Some(p@),
        r is None ==> read_record_spec(bytes@) is None,
{
    if bytes.len() < 8 {
        return None;
    }
    let version = read_le(bytes, 0);
    let len = read_le(bytes, 4);
    if version != CACHE_VERSION || len as usize != bytes.len() - 8 {
        return None;
    }
    let mut out: Vec<u8> = Vec::new();
    let mut i: usize = 8;
    while i < bytes.len()
        invariant
            8 <= i <= bytes@.len(),
            out@ == bytes@.subrange(8, i as int),
        decreases bytes.len() - i,
    {
        out.push(bytes[i]);
        assert(bytes@.subrange(8, i + 1) =~= bytes@.subrange(8, i as int).push(bytes@[i as int]));
        i = i + 1;
    }
    Some(out)
}

proof fn lemma_le_round_trip(x: u32)
    ensures
        le_value(le_bytes(x)) == x,
{
    let b = le_bytes(x);
    assert(b[0] as int == x % 256);
    assert(b[1] as int == (x / 256) % 256);
    assert(b[2] as int == (x / 65536) % 256);
    assert(b[3] as int == x / 16777216);
    assert(le_value(b) == x) by (nonlinear_arith)
        requires
            b[0] as int == x % 256,
            b[1] as int == (x / 256) % 256,
            b[2] as int == (x / 65536) % 256,
            b[3] as int == x / 16777216,
            le_value(b) == b[0] as int + 256 * b[1] as int + 65536 * b[2] as int + 16777216 * b[3] as int,
            0 <= x < 4294967296,
    ;
}

/// A record written for a payload reads back as that payload.
pub proof fn lemma_record_round_trip(payload: Seq<u8>)
    requires
        payload.len() <= u32::MAX,
    ensures
        read_record_spec(record_spec(payload)) == Some(payload),
{
    let r = record_spec(payload);
    lemma_le_round_trip(CACHE_VERSION);
    lemma_le_round_trip(payload.len() as u32);
    assert(r.subrange(0, 4) =~= le_bytes(CACHE_VERSION));
    assert(r.subrange(4, 8) =~= le_bytes(payload.len() as u32));
    assert(r.subrange(8, r.len() as int) =~= payload);
}

/// The value stored under `key`: that of its first entry.
pub open spec fn lookup_spec(es: Seq<(Seq<char>, Seq<u8>)>, key: Seq<char>) -> Option<Seq<u8>>
    decreases es.len(),
{
    if es.len() == 0 {
        None
    } else if es[0].0 == key {
        Some(es[0].1)
    } else {
        lookup_spec(es.drop_first(), key)
    }
}

proof fn lemma_lookup_update(es: Seq<(Seq<char>, Seq<u8>)>, i: int, key: Seq<char>, v: Seq<u8>, k: Seq<char>)
    requires
        0 <= i < es.len(),
        es[i].0 == key,
        forall|j: int| 0 <= j < i ==> es[j].0 != key,
    ensures
        lookup_spec(es.update(i, (key, v)), k) == if k == key { Some(v) } else { lookup_spec(es, k) },
    decreases i,
{
    let u = es.update(i, (key, v));
    if i > 0 {
        assert(u[0] == es[0]);
        assert(es[0].0 != key);
        assert(u.drop_first() =~= es.drop_first().update(i - 1, (key, v)));
        assert forall|j: int| 0 <= j < i - 1 implies es.drop_first()[j].0 != key by {
            assert(es[j + 1].0 != key);
        }
        lemma_lookup_update(es.drop_first(), i - 1, key, v, k);
    } else {
        assert(u[0] == (key, v));
        assert(u.drop_first() =~= es.drop_first());
    }
}

proof fn lemma_lookup_push(es: Seq<(Seq<char>, Seq<u8>)>, key: Seq<char>, v: Seq<u8>, k: Seq<char>)
    requires
        lookup_spec(es, key) is None,
    ensures
        lookup_spec(es.push((key, v)), k) == if k == key { Some(v) } else { lookup_spec(es, k) },
    decreases es.len(),
{
    let p = es.push((key, v));
    if es.len() > 0 {
        assert(p[0] == es[0]);
        assert(es[0].0 != key);
        assert(p.drop_first() =~= es.drop_first().push((key, v)));
        lemma_lookup_push(es.drop_first(), key, v, k);
    } else {
        assert(p[0] == (key, v));
        assert(p.drop_first() =~= seq![]);
        assert(lookup_spec(p.drop_first(), k) is None);
        assert(lookup_spec(es, k) is None);
    }
}

proof fn lemma_lookup_absent(es: Seq<(Seq<char>, Seq<u8>)>, key: Seq<char>)
    requires
        forall|j: int| 0 <= j < es.len() ==> es[j].0 != key,
    ensures
        lookup_spec(es, key) is None,
    decreases es.len(),
{
    if es.len() > 0 {
        lemma_lookup_absent(es.drop_first(), key);
    }
}

/// What the cache gives for a module.
pub enum CacheLookup {
    /// A stored record, read back: its payload.
    Hit(Vec<u8>),
    /// Nothing usable is stored: the module is built anew.
    Miss,
}

/// What the build of a module does next, after the cache was asked.
pub enum BuildPlan {
    /// Reuse the record with this payload.
    Reuse(Vec<u8>),
    /// Run the whole pipeline on the module.
    Build,
}

/// The payload read for a key, where a record is stored under it and reads back.
pub open spec fn lookup_result_spec(stored: Option<Seq<u8>>) -> Option<Seq<u8>> {
    match stored {
        Some(b) => read_record_spec(b),
        None => None,
    }
}

/// Records of modules, each stored as bytes under the development form of
/// the module's identity.
pub struct CacheManager {
    entries: Vec<(String, Vec<u8>)>,
}

impl CacheManager {
    /// The stored entries: a key and the bytes stored under it.
    pub closed spec fn store(&self) -> Seq<(Seq<char>, Seq<u8>)> {
        self.entries@.map_values(|e: (String, Vec<u8>)| (e.0@, e.1@))
    }

    /// The bytes stored under a key.
    pub open spec fn stored(&self, key: Seq<char>) -> Option<Seq<u8>> {
        lookup_spec(self.store(), key)
    }

    /// The payload read for a key: `None` where nothing is stored under it or
    /// what is stored is no whole record of the current version.
    pub open spec fn read_spec(&self, key: Seq<char>) -> Option<Seq<u8>> {
        lookup_result_spec(self.stored(key))
    }

    /// An empty cache.
    pub fn new() -> (r: Self)
        ensures
            forall|k: Seq<char>| r.stored(k) is None,
    {
        let r = CacheManager { entries: Vec::new() };
        assert forall|k: Seq<char>| r.stored(k) is None by {
            assert(r.store().len() == 0);
        }
        r
    }

    /// Stores bytes under a key, in place of what was stored under it.
    pub fn put_raw(&mut self, key: &str, bytes: Vec<u8>)
        ensures
            final(self).stored(key@) == Some(bytes@),
            forall|k: Seq<char>| k != key@ ==> final(self).stored(k) == old(self).stored(k),
    {
        let ghost before = self.store();
        let mut i: usize = 0;
        while i < self.entries.len()
            invariant
                i <= self.entries@.len(),
                before == self.store(),
                *self == *old(self),
                forall|j: int| 0 <= j < i ==> before[j].0 != key@,
            decreases self.entries.len() - i,
        {
            if str_eq_string(&self.entries[i].0, key) {
                let ghost bv = bytes@;
                self.entries.set(i, (String::from_str(key), bytes));
                assert(self.store() =~= before.update(i as int, (key@, bv)));
                assert forall|k: Seq<char>| #[trigger] lookup_spec(self.store(), k)
                    == if k == key@ { Some(bv) } else { lookup_spec(before, k) } by {
                    lemma_lookup_update(before, i as int, key@, bv, k);
                }
                return;
            }
            i = i + 1;
        }
        proof {
            lemma_lookup_absent(before, key@);
        }
        let ghost bv = bytes@;
        self.entries.push((String::from_str(key), bytes));
        assert(self.store() =~= before.push((key@, bv)));
        assert forall|k: Seq<char>| #[trigger] lookup_spec(self.store(), k)
            == if k == key@ { Some(bv) } else { lookup_spec(before, k) } by {
            lemma_lookup_push(before, key@, bv, k);
        }
    }

    /// Stores a payload as a record under a key.
    pub fn write(&mut self, key: &str, payload: &Vec<u8>)
        requires
            payload@.len() <= u32::MAX,
        ensures
            final(self).stored(key@) == Some(record_spec(payload@)),
            final(self).read_spec(key@) == Some(payload@),
            forall|k: Seq<char>| k != key@ ==> final(self).stored(k) == old(self).stored(k),
    {
        let record = write_record(payload);
        proof {
            lemma_record_round_trip(payload@);
        }
        self.put_raw(key, record);
    }

    /// Records the outcome of one module's build under its key: the payload of
    /// a successful build is stored; a failed build leaves the cache as it was.
    /// Either way no other key's record changes.
    pub fn commit_build(&mut self, key: &str, outcome: &Result<Vec<u8>, CompilationError>)
        requires
            outcome matches Ok(p) ==> p@.len() <= u32::MAX,
        ensures
            outcome matches Ok(p) ==> final(self).read_spec(key@) == Some(p@),
            outcome is Err ==> forall|k: Seq<char>| final(self).stored(k) == old(self).stored(k),
            forall|k: Seq<char>| k != key@ ==> final(self).stored(k) == old(self).stored(k),
    {
        match outcome {
            Ok(payload) => self.write(key, payload),
            Err(_) => {},
        }
    }

    /// Reads the record stored under a key. A key with nothing stored and a
    /// record that does not read back alike give a miss, never an error.
    pub fn read(&self, key: &str) -> (r: CacheLookup)
        ensures
            r matches CacheLookup::Hit(p) ==> self.read_spec(key@) == Some(p@),
            r is Miss ==> self.read_spec(key@) is None,
    {
        let mut i: usize = 0;
        let ghost es = self.store();
        assert(es.subrange(0, es.len() as int) =~= es);
        while i < self.entries.len()
            invariant
                i <= self.entries@.len(),
                es == self.store(),
                lookup_spec(es, key@) == lookup_spec(es.subrange(i as int, es.len() as int), key@),
            decreases self.entries.len() - i,
        {
            let ghost rest = es.subrange(i as int, es.len() as int);
            assert(rest.drop_first() =~= es.subrange(i + 1, es.len() as int));
            assert(rest[0] == es[i as int]);
            if str_eq_string(&self.entries[i].0, key) {
                return match read_record(&self.entries[i].1) {
                    Some(p) => CacheLookup::Hit(p),
                    None => CacheLookup::Miss,
                };
            }
            i = i + 1;
        }
        CacheLookup::Miss
    }
}

fn str_eq_string(a: &String, b: &str) -> (r: bool)
    ensures
        r == (a@ == b@),
{
    crate::module::str_eq(a.as_str(), b)
}

/// The key under which a module's record is stored: the development form of its identity.
pub fn module_cache_key(id: &ModuleId) -> (r: String)
    ensures
        r@ == id.dev_view(),
{
    id.to_string()
}

/// The plan for what the cache gave: a hit is reused, a miss is built.
pub fn plan_build(lookup: CacheLookup) -> (r: BuildPlan)
    ensures
        lookup matches CacheLookup::Hit(p) ==> (r matches BuildPlan::Reuse(q) && q@ == p@),
        lookup is Miss ==> r is Build,
{
    match lookup {
        CacheLookup::Hit(p) => BuildPlan::Reuse(p),
        CacheLookup::Miss => BuildPlan::Build,
    }
}

/// A key whose stored bytes are no readable record reads as a key with
/// nothing stored, the same as in an empty cache: the module is built as in a
/// cold build.
pub proof fn lemma_corrupt_entry_reads_as_cold(c: CacheManager, empty: CacheManager, key: Seq<char>)
    requires
        c.stored(key) matches Some(b) && read_record_spec(b) is None,
        forall|k: Seq<char>| empty.stored(k) is None,
    ensures
        c.read_spec(key) is None,
        c.read_spec(key) == empty.read_spec(key),
{
}

/// The archived form of a custom value: the length of its type name's UTF-8
/// bytes, those bytes, then the value's own bytes.
pub open spec fn custom_payload_spec(name: Seq<char>, data: Seq<u8>) -> Seq<u8> {
    le_bytes(encode_utf8(name).len() as u32) + encode_utf8(name) + data
}

/// The type name and bytes of an archived custom value, or `None` where the
/// bytes are cut short or the name is not valid UTF-8.
pub open spec fn read_custom_spec(p: Seq<u8>) -> Option<(Seq<char>, Seq<u8>)> {
    if p.len() >= 4 && 4 + le_value(p.subrange(0, 4)) <= p.len() && valid_utf8(
        p.subrange(4, 4 + le_value(p.subrange(0, 4))),
    ) {
        let n = le_value(p.subrange(0, 4));
        Some((decode_utf8(p.subrange(4, 4 + n)), p.subrange(4 + n, p.len() as int)))
    } else {
        None
    }
}

/// Relies on std's `String::from_utf8`: a text exactly where the bytes are
/// valid UTF-8, holding the characters they encode.
#[verifier::external_body]
fn string_from_utf8(b: Vec<u8>) -> (r: Option<String>)
    ensures
        r matches Some(s) ==> valid_utf8(b@) && s@ == decode_utf8(b@),
        r is None ==> !valid_utf8(b@),
{
    String::from_utf8(b).ok()
}

fn copy_range(b: &Vec<u8>, from: usize, to: usize) -> (r: Vec<u8>)
    requires
        from <= to <= b@.len(),
    ensures
        r@ == b@.subrange(from as int, to as int),
{
    let mut out: Vec<u8> = Vec::new();
    let mut i: usize = from;
    while i < to
        invariant
            from <= i <= to,
            to <= b@.len(),
            out@ == b@.subrange(from as int, i as int),
        decreases to - i,
    {
        out.push(b[i]);
        assert(b@.subrange(from as int, i + 1) =~= b@.subrange(from as int, i as int).push(b@[i as int]));
        i = i + 1;
    }
    out
}

/// Archives a custom value as the payload of a cache record.
pub fn write_custom(v: &CustomMetaValue) -> (r: Vec<u8>)
    requires
        encode_utf8(v.archive_name@).len() <= u32::MAX,
    ensures
        r@ == custom_payload_spec(v.archive_name@, v.bytes@),
{
    let name = v.archive_name.as_str().as_bytes_vec();
    let mut out: Vec<u8> = Vec::new();
    push_le(&mut out, name.len() as u32);
    let mut i: usize = 0;
    while i < name.len()
        invariant
            i <= name@.len(),
            out@ == le_bytes(name@.len() as u32) + name@.subrange(0, i as int),
        decreases name.len() - i,
    {
        out.push(name[i]);
        assert(name@.subrange(0, i + 1) =~= name@.subrange(0, i as int).push(name@[i as int]));
        i = i + 1;
    }
    assert(name@.subrange(0, name@.len() as int) =~= name@);
    let mut j: usize = 0;
    while j < v.bytes.len()
        invariant
            j <= v.bytes@.len(),
            out@ == le_bytes(name@.len() as u32) + name@ + v.bytes@.subrange(0, j as int),
        decreases v.bytes.len() - j,
    {
        out.push(v.bytes[j]);
        assert(v.bytes@.subrange(0, j + 1) =~= v.bytes@.subrange(0, j as int).push(v.bytes@[j as int]));
        j = j + 1;
    }
    assert(v.bytes@.subrange(0, v.bytes@.len() as int) =~= v.bytes@);
    out
}

/// Reads an archived custom value back: `None` where the bytes are cut short
/// or the type name is not valid UTF-8.
pub fn read_custom(p: &Vec<u8>) -> (r: Option<CustomMetaValue>)
    ensures
        r matches Some(v) ==> read_custom_spec(p@) == Some((v.archive_name@, v.bytes@)),
        r is None ==> read_custom_spec(p@) is None,
{
    if p.len() < 4 {
        return None;
    }
    let n = read_le(p, 0) as usize;
    if n > p.len() - 4 {
        return None;
    }
    let name_bytes = copy_range(p, 4, 4 + n);
    match string_from_utf8(name_bytes) {
        Some(archive_name) => {
            let bytes = copy_range(p, 4 + n, p.len());
            Some(CustomMetaValue { archive_name, bytes })
        },
        None => None,
    }
}

/// A custom value archived into a cache record reads back, from the record,
/// as the same type name and the same bytes.
pub proof fn lemma_custom_meta_round_trip(name: Seq<char>, data: Seq<u8>)
    requires
        custom_payload_spec(name, data).len() <= u32::MAX,
    ensures
        read_record_spec(record_spec(custom_payload_spec(name, data))) matches Some(p)
            && read_custom_spec(p) == Some((name, data)),
{
    let e = encode_utf8(name);
    let p = custom_payload_spec(name, data);
    lemma_record_round_trip(p);
    lemma_le_round_trip(e.len() as u32);
    assert(p.subrange(0, 4) =~= le_bytes(e.len() as u32));
    assert(p.subrange(4, 4 + e.len() as int) =~= e);
    assert(p.subrange(4 + e.len() as int, p.len() as int) =~= data);
    encode_utf8_valid_utf8(name);
    encode_utf8_decode_utf8(name);
}

} // verus!
