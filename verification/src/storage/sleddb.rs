//! The persistent backend: tables laid out in one flat keyspace of an
//! embedded database.
//!
//! The entry of `key` in `table` is stored under the UTF-8 bytes of
//! `"<table>:<key>"`, and a table is listed by a scan over the prefix
//! `"<table>:"`. A key is found again as what follows the first `:` of a
//! stored key. That is unambiguous as long as no table name holds a `:`,
//! so a table name that does is refused; a key may hold any character.

use crate::error::{KvError, KvErrorView};
use crate::pb::abi::{pairs_view, Kvpair, KvpairView, Value, ValueView};
use crate::storage::codec::{law_codec_round_trip, parse_value, text_of, value_bytes};
use crate::storage::{
    found_view, lists, listing_view, table_of, Found, Storage, StorageIter, StoreView,
};
use vstd::prelude::*;
use vstd::slice::{slice_subrange, slice_to_vec};
use vstd::string::StringExecFns;
use vstd::utf8::{
    decode_utf8, decode_utf8_encode_utf8, encode_scalar, encode_utf8, encode_utf8_decode_utf8,
    valid_utf8,
};

verus! {

/// The character that parts a table name from a key.
pub const SEPARATOR: char = ':';

/// The byte that encodes the separator.
pub const SEPARATOR_BYTE: u8 = 0x3A;

/// Whether a table name can be used: it holds no separator.
pub open spec fn plain(table: Seq<char>) -> bool {
    !table.contains(SEPARATOR)
}

/// The text under which the entry of `key` in `table` is stored.
pub open spec fn full_key(table: Seq<char>, key: Seq<char>) -> Seq<char> {
    table + seq![SEPARATOR] + key
}

/// The text with which the stored key of every entry of `table` begins.
pub open spec fn table_prefix(table: Seq<char>) -> Seq<char> {
    table + seq![SEPARATOR]
}

/// The key of the entry stored under `bytes`: what follows the first
/// separator, if there is a separator and UTF-8 behind it.
pub open spec fn key_of(bytes: Seq<u8>) -> Option<Seq<char>> {
    match bytes.index_of_first(SEPARATOR_BYTE) {
        Some(at) => if valid_utf8(bytes.skip(at + 1)) {
            Some(decode_utf8(bytes.skip(at + 1)))
        } else {
            None
        },
        None => None,
    }
}

/// The value that stored bytes stand for; bytes that stand for none count
/// as the absent value.
pub open spec fn stored_value(bytes: Seq<u8>) -> ValueView {
    match parse_value(bytes) {
        Some(value) => value,
        None => ValueView::Absent,
    }
}

/// The store that a flat keyspace stands for: the entries under the full
/// keys of plain tables.
pub open spec fn store_of(entries: Map<Seq<u8>, Seq<u8>>) -> StoreView {
    Map::new(
        |at: (Seq<char>, Seq<char>)|
            plain(at.0) && entries.contains_key(encode_utf8(full_key(at.0, at.1))),
        |at: (Seq<char>, Seq<char>)| stored_value(entries[encode_utf8(full_key(at.0, at.1))]),
    )
}

/// The encoding of a text in two parts is the encoding of the first part
/// followed by that of the second.
pub proof fn lemma_encode_concat(first: Seq<char>, second: Seq<char>)
    ensures
        encode_utf8(first + second) == encode_utf8(first) + encode_utf8(second),
    decreases first.len(),
{
    if first.len() == 0 {
        assert(first + second =~= second);
        assert(encode_utf8(first) + encode_utf8(second) =~= encode_utf8(second));
    } else {
        lemma_encode_concat(first.drop_first(), second);
        assert((first + second).drop_first() =~= first.drop_first() + second);
        assert(encode_utf8(first + second) =~= encode_utf8(first) + encode_utf8(second));
    }
}

/// Different texts have different encodings.
pub proof fn lemma_encode_injective(first: Seq<char>, second: Seq<char>)
    requires
        encode_utf8(first) == encode_utf8(second),
    ensures
        first == second,
{
    encode_utf8_decode_utf8(first);
    encode_utf8_decode_utf8(second);
}

/// The separator byte occurs in the encoding of a character only where the
/// character is the separator, and then it is the whole encoding.
proof fn lemma_separator_in_scalar(scalar: u32)
    requires
        scalar <= 0x10FFFF,
    ensures
        scalar == 0x3A ==> encode_scalar(scalar) == seq![SEPARATOR_BYTE],
        scalar != 0x3A ==> !encode_scalar(scalar).contains(SEPARATOR_BYTE),
{
    let bytes = encode_scalar(scalar);
    assert(scalar <= 0x7F ==> (scalar & 0x7F) as u8 == scalar) by (bit_vector);
    assert((0xC0 | ((scalar >> 6) & 0x1F) as u8) >= 0x80) by (bit_vector);
    assert((0xE0 | ((scalar >> 12) & 0x0F) as u8) >= 0x80) by (bit_vector);
    assert((0xF0 | ((scalar >> 18) & 0x07) as u8) >= 0x80) by (bit_vector);
    assert((0x80 | (scalar & 0x3F) as u8) >= 0x80) by (bit_vector);
    assert((0x80 | ((scalar >> 6) & 0x3F) as u8) >= 0x80) by (bit_vector);
    assert((0x80 | ((scalar >> 12) & 0x3F) as u8) >= 0x80) by (bit_vector);
    if scalar != 0x3A {
        assert forall|i: int| 0 <= i < bytes.len() implies bytes[i] != SEPARATOR_BYTE by {}
    }
}

/// The encoding of a text without a separator holds no separator byte.
pub proof fn lemma_plain_has_no_separator_byte(text: Seq<char>)
    requires
        plain(text),
    ensures
        !encode_utf8(text).contains(SEPARATOR_BYTE),
    decreases text.len(),
{
    if text.len() > 0 {
        let rest = text.drop_first();
        assert(text[0] != SEPARATOR);
        assert forall|i: int| 0 <= i < rest.len() implies rest[i] != SEPARATOR by {
            assert(rest[i] == text[i + 1]);
        }
        lemma_plain_has_no_separator_byte(rest);
        let scalar = text[0] as u32;
        vstd::utf8::char_is_scalar(text[0]);
        assert(scalar != 0x3A) by {
            vstd::utf8::char_u32_cast(text[0], scalar);
            vstd::utf8::char_u32_cast(SEPARATOR, 0x3A);
        }
        lemma_separator_in_scalar(scalar);
        let head = encode_scalar(scalar);
        let tail = encode_utf8(rest);
        assert(encode_utf8(text) == head + tail);
        assert forall|i: int| 0 <= i < (head + tail).len() implies (head + tail)[i]
            != SEPARATOR_BYTE by {
            if i < head.len() {
                assert(head[i] == (head + tail)[i]);
                assert(!head.contains(SEPARATOR_BYTE));
            } else {
                assert(tail[i - head.len()] == (head + tail)[i]);
                assert(!tail.contains(SEPARATOR_BYTE));
            }
        }
    }
}

/// The bytes of a table prefix: the bytes of the name, then the separator
/// byte.
pub proof fn lemma_prefix_bytes(table: Seq<char>)
    ensures
        encode_utf8(table_prefix(table)) == encode_utf8(table).push(SEPARATOR_BYTE),
{
    lemma_encode_concat(table, seq![SEPARATOR]);
    lemma_separator_in_scalar(SEPARATOR as u32);
    let one = seq![SEPARATOR];
    assert(one.drop_first() =~= Seq::<char>::empty());
    assert(encode_utf8(one.drop_first()) =~= Seq::<u8>::empty());
    assert(encode_utf8(one) =~= encode_scalar(one[0] as u32) + encode_utf8(one.drop_first()));
    assert(encode_utf8(one) =~= seq![SEPARATOR_BYTE]);
    assert(encode_utf8(table) + seq![SEPARATOR_BYTE] =~= encode_utf8(table).push(SEPARATOR_BYTE));
}

/// A stored key is the table prefix followed by the bytes of the key.
pub proof fn lemma_full_key_bytes(table: Seq<char>, key: Seq<char>)
    ensures
        encode_utf8(full_key(table, key)) == encode_utf8(table_prefix(table)) + encode_utf8(key),
        encode_utf8(table_prefix(table)).is_prefix_of(encode_utf8(full_key(table, key))),
{
    lemma_encode_concat(table_prefix(table), key);
    let prefix = encode_utf8(table_prefix(table));
    let whole = prefix + encode_utf8(key);
    assert(whole.subrange(0, prefix.len() as int) =~= prefix);
}

/// Behind the prefix of a plain table, the key of a stored key is the
/// text that the rest of the bytes encode.
pub proof fn lemma_key_behind_prefix(table: Seq<char>, stored: Seq<u8>)
    requires
        plain(table),
        encode_utf8(table_prefix(table)).is_prefix_of(stored),
    ensures
        ({
            let rest = stored.skip(encode_utf8(table_prefix(table)).len() as int);
            key_of(stored) == if valid_utf8(rest) {
                Some(decode_utf8(rest))
            } else {
                None
            }
        }),
        key_of(stored) matches Some(key) ==> encode_utf8(full_key(table, key)) == stored,
{
    let prefix = encode_utf8(table_prefix(table));
    let name = encode_utf8(table);
    lemma_prefix_bytes(table);
    lemma_plain_has_no_separator_byte(table);
    stored.index_of_first_ensures(SEPARATOR_BYTE);
    let at = name.len() as int;
    assert(prefix[at] == SEPARATOR_BYTE);
    assert(stored.subrange(0, prefix.len() as int)[at] == stored[at]);
    assert(stored[at] == SEPARATOR_BYTE);
    assert forall|j: int| 0 <= j < at implies stored[j] != SEPARATOR_BYTE by {
        assert(stored.subrange(0, prefix.len() as int)[j] == stored[j]);
        assert(prefix[j] == name[j]);
    }
    assert(stored.contains(SEPARATOR_BYTE));
    let found = stored.index_of_first(SEPARATOR_BYTE).unwrap();
    assert(found == at) by {
        if found < at {
            assert(stored[found] != SEPARATOR_BYTE);
        }
    }
    let rest = stored.skip(prefix.len() as int);
    if valid_utf8(rest) {
        let key = decode_utf8(rest);
        decode_utf8_encode_utf8(rest);
        lemma_full_key_bytes(table, key);
        assert(prefix + rest =~= stored);
    }
}

/// Under plain table names, different entries have different stored keys.
pub proof fn lemma_full_key_injective(
    table: Seq<char>,
    key: Seq<char>,
    other_table: Seq<char>,
    other_key: Seq<char>,
)
    requires
        plain(table),
        plain(other_table),
        encode_utf8(full_key(table, key)) == encode_utf8(full_key(other_table, other_key)),
    ensures
        table == other_table,
        key == other_key,
{
    let whole = full_key(table, key);
    let other = full_key(other_table, other_key);
    lemma_encode_injective(whole, other);
    if table.len() < other_table.len() {
        assert(whole[table.len() as int] == SEPARATOR);
        assert(other[table.len() as int] == other_table[table.len() as int]);
    } else if other_table.len() < table.len() {
        assert(other[other_table.len() as int] == SEPARATOR);
        assert(whole[other_table.len() as int] == table[other_table.len() as int]);
    }
    assert(table =~= whole.take(table.len() as int));
    assert(other_table =~= other.take(table.len() as int));
    assert(key =~= whole.skip(table.len() as int + 1));
    assert(other_key =~= other.skip(table.len() as int + 1));
}

/// `sled::Db`, an embedded database. Nothing is known of a value of it but
/// what the functions below state.
#[verifier::external_type_specification]
#[verifier::external_body]
pub struct ExDb(sled::Db);

/// `sled::Error`, what the database gives when a call fails.
#[verifier::external_type_specification]
#[verifier::external_body]
pub struct ExSledError(sled::Error);

/// What a database holds in its default keyspace: the bytes stored under
/// each key.
pub uninterp spec fn db_entries(db: sled::Db) -> Map<Seq<u8>, Seq<u8>>;

/// `found` is the listing of the entries whose key begins with `prefix`:
/// each of them once, and no other.
pub open spec fn scans(
    found: Seq<(Seq<u8>, Seq<u8>)>,
    entries: Map<Seq<u8>, Seq<u8>>,
    prefix: Seq<u8>,
) -> bool {
    &&& forall|i: int|
        0 <= i < found.len() ==> {
            &&& entries.contains_key(#[trigger] found[i].0)
            &&& entries[found[i].0] == found[i].1
            &&& prefix.is_prefix_of(found[i].0)
        }
    &&& forall|i: int, j: int|
        0 <= i < j < found.len() ==> #[trigger] found[i].0 != #[trigger] found[j].0
    &&& forall|key: Seq<u8>| #[trigger]
        entries.contains_key(key) && prefix.is_prefix_of(key) ==> exists|i: int|
            0 <= i < found.len() && #[trigger] found[i].0 == key
}

/// The views of scanned entries.
pub open spec fn scan_view(found: Seq<(Vec<u8>, Vec<u8>)>) -> Seq<(Seq<u8>, Seq<u8>)> {
    found.map_values(|e: (Vec<u8>, Vec<u8>)| (e.0@, e.1@))
}

/// The view of bytes that may be there.
pub open spec fn bytes_view(bytes: Option<Vec<u8>>) -> Option<Seq<u8>> {
    match bytes {
        Some(b) => Some(b@),
        None => None,
    }
}

/// The bytes under `key`, if there are any.
pub open spec fn entry_at(entries: Map<Seq<u8>, Seq<u8>>, key: Seq<u8>) -> Option<Seq<u8>> {
    if entries.contains_key(key) {
        Some(entries[key])
    } else {
        None
    }
}

/// The path that a database was opened at.
pub uninterp spec fn db_path(db: sled::Db) -> Seq<char>;

/// Opens the database at `path`, and makes it where there is none.
///
/// Trusted: calls `sled::open`, which puts the path into the configuration
/// of the database that it gives; a database keeps its configuration.
/// Nothing is claimed of what the database holds, nor of when opening
/// succeeds.
#[verifier::external_body]
fn db_open(path: &str) -> (r: Result<sled::Db, sled::Error>)
    ensures
        r matches Ok(db) ==> db_path(db) == path@,
{
    sled::open(path)
}

/// The bytes stored under `key`.
///
/// Trusted: `sled::Tree::get` on the default keyspace gives, where it
/// succeeds, the value under the key or `None`.
#[verifier::external_body]
fn db_get(db: &sled::Db, key: &[u8]) -> (r: Result<Option<Vec<u8>>, sled::Error>)
    ensures
        r matches Ok(found) ==> bytes_view(found) == entry_at(db_entries(*db), key@),
{
    db.get(key).map(|found| found.map(|v| v.to_vec()))
}

/// Stores `value` under `key` and returns the bytes that were there.
///
/// Trusted: `sled::Tree::insert` on the default keyspace returns, where it
/// succeeds, the last value of the key if it was set, and leaves the new
/// one; no other key changes. Nothing is claimed of what the database
/// holds after a call that fails. The database stays at its path.
#[verifier::external_body]
fn db_insert(db: &mut sled::Db, key: &[u8], value: Vec<u8>) -> (r: Result<
    Option<Vec<u8>>,
    sled::Error,
>)
    ensures
        r matches Ok(previous) ==> bytes_view(previous) == entry_at(db_entries(*old(db)), key@)
            && db_entries(*final(db)) == db_entries(*old(db)).insert(key@, value@),
        db_path(*final(db)) == db_path(*old(db)),
{
    db.insert(key, value).map(|previous| previous.map(|v| v.to_vec()))
}

/// Whether something is stored under `key`.
///
/// Trusted: `sled::Tree::contains_key` on the default keyspace.
#[verifier::external_body]
fn db_contains_key(db: &sled::Db, key: &[u8]) -> (r: Result<bool, sled::Error>)
    ensures
        r matches Ok(present) ==> present == db_entries(*db).contains_key(key@),
{
    db.contains_key(key)
}

/// Removes what is stored under `key` and returns it.
///
/// Trusted: `sled::Tree::remove` on the default keyspace returns, where it
/// succeeds, the old value if it existed, and leaves the key absent; no
/// other key changes. Nothing is claimed of what the database holds after
/// a call that fails. The database stays at its path.
#[verifier::external_body]
fn db_remove(db: &mut sled::Db, key: &[u8]) -> (r: Result<Option<Vec<u8>>, sled::Error>)
    ensures
        r matches Ok(removed) ==> bytes_view(removed) == entry_at(db_entries(*old(db)), key@)
            && db_entries(*final(db)) == db_entries(*old(db)).remove(key@),
        db_path(*final(db)) == db_path(*old(db)),
{
    db.remove(key).map(|removed| removed.map(|v| v.to_vec()))
}

/// The entries whose key begins with `prefix`.
///
/// Trusted: the iterator of `sled::Tree::scan_prefix` on the default
/// keyspace gives every entry whose key starts with the prefix, each once;
/// the scan fails as a whole if one step of it fails.
#[verifier::external_body]
fn db_scan_prefix(db: &sled::Db, prefix: &[u8]) -> (r: Result<Vec<(Vec<u8>, Vec<u8>)>, sled::Error>)
    ensures
        r matches Ok(found) ==> scans(scan_view(found@), db_entries(*db), prefix@),
{
    db.scan_prefix(prefix).map(|entry| entry.map(|(k, v)| (k.to_vec(), v.to_vec()))).collect()
}

/// What the database says of an error.
///
/// Trusted: the `Display` text of `sled::Error`; nothing is claimed of it.
#[verifier::external_body]
fn error_text(error: &sled::Error) -> String {
    error.to_string()
}

/// Whether `table` can name a table: whether it holds no separator.
pub fn plain_name(table: &str) -> (ok: bool)
    ensures
        ok == plain(table@),
{
    let mut ok = true;
    for c in it: table.chars()
        invariant
            it.seq() == table@,
            ok == !table@.take(it.index() as int).contains(SEPARATOR),
    {
        proof {
            let i = it.index() as int;
            let before = table@.take(i);
            let now = table@.take(i + 1);
            assert(now =~= before.push(c));
            if c == SEPARATOR {
                assert(now[i] == SEPARATOR);
            } else {
                if now.contains(SEPARATOR) {
                    let j = choose|j: int| 0 <= j < now.len() && now[j] == SEPARATOR;
                    assert(before[j] == SEPARATOR);
                }
                if before.contains(SEPARATOR) {
                    let j = choose|j: int| 0 <= j < before.len() && before[j] == SEPARATOR;
                    assert(now[j] == SEPARATOR);
                }
            }
        }
        if c == SEPARATOR {
            ok = false;
        }
    }
    assert(table@.take(table@.len() as int) =~= table@);
    ok
}

/// Turns a result that may be missing into a missing value that may have
/// failed.
pub fn flip<T, E>(x: Option<Result<T, E>>) -> (r: Result<Option<T>, E>)
    ensures
        r == match x {
            None => Ok::<Option<T>, E>(None),
            Some(Ok(v)) => Ok::<Option<T>, E>(Some(v)),
            Some(Err(e)) => Err::<Option<T>, E>(e),
        },
{
    match x {
        None => Ok(None),
        Some(Ok(v)) => Ok(Some(v)),
        Some(Err(e)) => Err(e),
    }
}

/// The key of the entry that is stored under `ivec`. Stored bytes without
/// a separator, or with something else than UTF-8 behind it, are a decode
/// error.
pub fn ivec_to_key(ivec: &[u8]) -> (r: Result<String, KvError>)
    ensures
        match key_of(ivec@) {
            Some(key) => r matches Ok(text) && text@ == key,
            None => r matches Err(KvError::DecodeError(_)),
        },
{
    proof {
        ivec@.index_of_first_ensures(SEPARATOR_BYTE);
    }
    let mut at: usize = 0;
    while at < ivec.len() && ivec[at] != SEPARATOR_BYTE
        invariant
            at <= ivec.len(),
            forall|j: int| 0 <= j < at ==> ivec@[j] != SEPARATOR_BYTE,
        decreases ivec.len() - at,
    {
        at = at + 1;
    }
    if at == ivec.len() {
        return Err(KvError::DecodeError(String::from_str("stored key without a separator")));
    }
    let rest = slice_subrange(ivec, at + 1, ivec.len());
    assert(rest@ =~= ivec@.skip(at + 1));
    match text_of(slice_to_vec(rest)) {
        Some(key) => Ok(key),
        None => Err(KvError::DecodeError(String::from_str("stored key is not UTF-8"))),
    }
}

/// The pair that a stored entry stands for, if its stored key holds a key
/// and its bytes stand for a value.
pub open spec fn entry_view(key: Seq<u8>, value: Seq<u8>) -> Option<KvpairView> {
    match (key_of(key), parse_value(value)) {
        (Some(k), Some(v)) => Some(KvpairView { key: k, value: Some(v) }),
        _ => None,
    }
}

/// The pair that a stored entry stands for. An entry that stands for none
/// is a decode error.
pub fn entry_pair(key: &[u8], value: &[u8]) -> (r: Result<Kvpair, KvError>)
    ensures
        match entry_view(key@, value@) {
            Some(pair) => r matches Ok(p) && p@ == pair,
            None => r matches Err(KvError::DecodeError(_)),
        },
{
    match ivec_to_key(key) {
        Ok(k) => match Value::decode(value) {
            Ok(v) => Ok(Kvpair { key: k, value: Some(v) }),
            Err(e) => Err(e),
        },
        Err(e) => Err(e),
    }
}

/// The pairs that scanned entries stand for, in the order of the scan. If
/// one of the entries stands for no pair, the whole listing is a decode
/// error.
pub fn listing(found: Vec<(Vec<u8>, Vec<u8>)>) -> (r: Result<Vec<Kvpair>, KvError>)
    ensures
        match r {
            Ok(pairs) => {
                &&& pairs@.len() == found@.len()
                &&& forall|i: int|
                    0 <= i < found@.len() ==> entry_view(found@[i].0@, found@[i].1@) == Some(
                        (#[trigger] pairs@[i])@,
                    )
            },
            Err(e) => {
                &&& e matches KvError::DecodeError(_)
                &&& exists|i: int|
                    0 <= i < found@.len() && entry_view(
                        (#[trigger] found@[i]).0@,
                        found@[i].1@,
                    ) is None
            },
        },
{
    let mut pairs: Vec<Kvpair> = Vec::new();
    let mut i: usize = 0;
    while i < found.len()
        invariant
            i <= found.len(),
            pairs.len() == i,
            forall|j: int|
                0 <= j < i ==> entry_view(found@[j].0@, found@[j].1@) == Some(
                    (#[trigger] pairs@[j])@,
                ),
        decreases found.len() - i,
    {
        match entry_pair(found[i].0.as_slice(), found[i].1.as_slice()) {
            Ok(pair) => {
                pairs.push(pair);
            },
            Err(e) => {
                assert(entry_view(found@[i as int].0@, found@[i as int].1@) is None);
                return Err(e);
            },
        }
        i = i + 1;
    }
    Ok(pairs)
}

/// The persistent backend.
#[derive(Debug)]
pub struct SledDb(sled::Db);

/// What the error for a table name that holds the separator says.
pub open spec fn separator_message(table: Seq<char>) -> Seq<char> {
    "table name holds ':': "@ + table
}

/// The error for a table name that holds the separator: an invalid
/// command that names the table.
fn separator_in_name(table: &str) -> (e: KvError)
    ensures
        e@ == KvErrorView::InvalidCommand(separator_message(table@)),
{
    let mut what = String::from_str("table name holds ':': ");
    what.append(table);
    KvError::InvalidCommand(what)
}

/// The error for a call that the database failed.
fn storage_error(op: &'static str, table: &str, key: &str, error: &sled::Error) -> (e: KvError)
    ensures
        e matches KvError::StorageError(o, t, k, _) && o@ == op@ && t@ == table@ && k@ == key@,
{
    KvError::StorageError(op, String::from_str(table), String::from_str(key), error_text(error))
}

/// Whether `e` is an error that the persistent backend gives for the
/// operation `op` on `key` of `table`: an invalid command that names the
/// table, for a table name that is not plain; else a storage error that
/// names the
/// operation, the table and the key where the database failed, or a decode
/// error, which comes only where the stored bytes that the operation read
/// are `damaged`.
pub open spec fn backend_error(
    e: KvErrorView,
    op: Seq<char>,
    table: Seq<char>,
    key: Seq<char>,
    damaged: bool,
) -> bool {
    match e {
        KvErrorView::InvalidCommand(what) => !plain(table) && what == separator_message(table),
        KvErrorView::StorageError(o, t, k, _) => plain(table) && o == op && t == table && k
            == key,
        KvErrorView::DecodeError(_) => plain(table) && damaged,
        _ => false,
    }
}

/// Whether a `set` or `del` that returned `r` changed the database: it did
/// where the call succeeded, and also where it failed with a decode error,
/// which comes from the bytes that the write replaced.
pub open spec fn written(r: Found) -> bool {
    match r {
        Ok(_) => true,
        Err(KvErrorView::DecodeError(_)) => true,
        Err(_) => false,
    }
}

/// Whether the bytes under the stored key of `key` in `table` stand for no
/// value.
pub open spec fn damaged_at(
    entries: Map<Seq<u8>, Seq<u8>>,
    table: Seq<char>,
    key: Seq<char>,
) -> bool {
    let stored = encode_utf8(full_key(table, key));
    entries.contains_key(stored) && parse_value(entries[stored]) is None
}

/// Whether some entry behind the prefix of `table` has a stored key
/// without a key in it, or bytes that stand for no value.
pub open spec fn damaged_in(entries: Map<Seq<u8>, Seq<u8>>, table: Seq<char>) -> bool {
    exists|stored: Seq<u8>| #[trigger]
        entries.contains_key(stored) && encode_utf8(table_prefix(table)).is_prefix_of(stored) && (
        key_of(stored) is None || parse_value(entries[stored]) is None)
}

impl SledDb {
    /// The bytes that the database holds under each stored key.
    pub closed spec fn entries(&self) -> Map<Seq<u8>, Seq<u8>> {
        db_entries(self.0)
    }

    /// What the store holds is what its entries stand for.
    pub proof fn lemma_contents(&self)
        ensures
            self.contents() == store_of(self.entries()),
    {
    }

    /// The path of the database that the store keeps its entries in.
    pub closed spec fn path(&self) -> Seq<char> {
        db_path(self.0)
    }

    /// Opens the store at `path`, and makes it where there is none. What
    /// it holds is what was stored there before. Whether opening succeeds
    /// is for the database to say; where it fails, the error is a storage
    /// error of the operation `open`, with no table and no key.
    pub fn new(path: &str) -> (r: Result<SledDb, KvError>)
        ensures
            r matches Ok(store) ==> store.path() == path@,
            r matches Err(e) ==> e@ matches KvErrorView::StorageError(op, table, key, _) && op
                == "open"@ && table.len() == 0 && key.len() == 0,
    {
        match db_open(path) {
            Ok(db) => Ok(SledDb(db)),
            Err(e) => {
                proof {
                    reveal_strlit("");
                }
                Err(storage_error("open", "", "", &e))
            },
        }
    }

    /// The text under which the entry of `key` in `table` is stored.
    pub fn get_full_key(table: &str, key: &str) -> (name: String)
        ensures
            name@ == full_key(table@, key@),
    {
        let mut name = SledDb::get_table_prefix(table);
        name.append(key);
        name
    }

    /// The text with which the stored key of every entry of `table`
    /// begins.
    pub fn get_table_prefix(table: &str) -> (prefix: String)
        ensures
            prefix@ == table_prefix(table@),
    {
        let mut prefix = String::from_str(table);
        prefix.append(":");
        proof {
            reveal_strlit(":");
            assert(":"@ =~= seq![SEPARATOR]);
        }
        prefix
    }

    /// The value that stored bytes stand for, where there are any.
    fn stored(found: Option<Vec<u8>>) -> (r: Result<Option<Value>, KvError>)
        ensures
            match found {
                None => r matches Ok(None),
                Some(bytes) => match parse_value(bytes@) {
                    Some(value) => r matches Ok(Some(v)) && v@ == value,
                    None => r matches Err(KvError::DecodeError(_)),
                },
            },
    {
        let res = match found {
            Some(bytes) => Some(Value::decode(bytes.as_slice())),
            None => None,
        };
        flip(res)
    }
}

/// What a listing of scanned entries says of the table: if every entry
/// behind the prefix of a plain table stands for a pair, the pairs list
/// the table; if one does not, some entry behind the prefix is damaged.
proof fn lemma_listing_of_scan(
    entries: Map<Seq<u8>, Seq<u8>>,
    table: Seq<char>,
    scanned: Seq<(Seq<u8>, Seq<u8>)>,
    listed: Result<Seq<KvpairView>, KvErrorView>,
)
    requires
        plain(table),
        scans(scanned, entries, encode_utf8(table_prefix(table))),
        match listed {
            Ok(pairs) => pairs.len() == scanned.len() && forall|i: int|
                0 <= i < scanned.len() ==> entry_view(scanned[i].0, scanned[i].1) == Some(
                    #[trigger] pairs[i],
                ),
            Err(_) => exists|i: int|
                0 <= i < scanned.len() && entry_view((#[trigger] scanned[i]).0, scanned[i].1)
                    is None,
        },
    ensures
        listed matches Ok(pairs) ==> lists(pairs, table_of(store_of(entries), table)),
        listed is Err <==> damaged_in(entries, table),
{
    let start = encode_utf8(table_prefix(table));
    let table_view = table_of(store_of(entries), table);
    match listed {
        Ok(pairs) => {
            assert forall|j: int| 0 <= j < pairs.len() implies table_view.contains_key(
                #[trigger] pairs[j].key,
            ) && pairs[j].value == Some(table_view[pairs[j].key]) by {
                lemma_key_behind_prefix(table, scanned[j].0);
            }
            assert forall|j: int, k: int| 0 <= j < k < pairs.len() implies #[trigger] pairs[j].key
                != #[trigger] pairs[k].key by {
                lemma_key_behind_prefix(table, scanned[j].0);
                lemma_key_behind_prefix(table, scanned[k].0);
            }
            assert forall|key: Seq<char>| #[trigger]
                table_view.contains_key(key) implies exists|j: int|
                0 <= j < pairs.len() && #[trigger] pairs[j].key == key by {
                let stored = encode_utf8(full_key(table, key));
                lemma_full_key_bytes(table, key);
                assert(entries.contains_key(stored) && start.is_prefix_of(stored));
                let j = choose|j: int| 0 <= j < scanned.len() && #[trigger] scanned[j].0 == stored;
                lemma_key_behind_prefix(table, stored);
                encode_utf8_decode_utf8(key);
                vstd::utf8::encode_utf8_valid_utf8(key);
                assert(stored.skip(start.len() as int) =~= encode_utf8(key));
                assert(pairs[j].key == key);
            }
            if damaged_in(entries, table) {
                let stored = choose|stored: Seq<u8>| #[trigger]
                    entries.contains_key(stored) && start.is_prefix_of(stored) && (key_of(stored)
                        is None || parse_value(entries[stored]) is None);
                let j = choose|j: int| 0 <= j < scanned.len() && #[trigger] scanned[j].0 == stored;
                assert(entry_view(scanned[j].0, scanned[j].1) == Some(pairs[j]));
            }
        },
        Err(_) => {
            let i = choose|i: int|
                0 <= i < scanned.len() && entry_view((#[trigger] scanned[i]).0, scanned[i].1)
                    is None;
            let stored = scanned[i].0;
            assert(entries.contains_key(stored) && start.is_prefix_of(stored));
            assert(key_of(stored) is None || parse_value(entries[stored]) is None);
        },
    }
}

impl Storage for SledDb {
    closed spec fn contents(&self) -> StoreView {
        store_of(db_entries(self.0))
    }

    open spec fn reliable(&self) -> bool {
        false
    }

    fn get(&self, table: &str, key: &str) -> (r: Result<Option<Value>, KvError>)
        ensures
            !plain(table@) ==> r is Err,
            damaged_at(self.entries(), table@, key@) ==> r is Err,
            r matches Err(e) ==> backend_error(
                e@,
                "get"@,
                table@,
                key@,
                damaged_at(self.entries(), table@, key@),
            ),
    {
        if !plain_name(table) {
            return Err(separator_in_name(table));
        }
        let name = SledDb::get_full_key(table, key);
        match db_get(&self.0, name.as_str().as_bytes()) {
            Ok(found) => SledDb::stored(found),
            Err(e) => Err(storage_error("get", table, key, &e)),
        }
    }

    fn set(&mut self, table: &str, key: String, value: Value) -> (r: Result<
        Option<Value>,
        KvError,
    >)
        ensures
            final(self).path() == old(self).path(),
            !plain(table@) ==> r is Err && final(self).entries() == old(self).entries(),
            damaged_at(old(self).entries(), table@, key@) ==> r is Err,
            written(found_view(r)) ==> final(self).entries() == old(self).entries().insert(
                encode_utf8(full_key(table@, key@)),
                value_bytes(value@),
            ),
            r matches Err(e) ==> backend_error(
                e@,
                "set"@,
                table@,
                key@,
                damaged_at(old(self).entries(), table@, key@),
            ),
    {
        if !plain_name(table) {
            return Err(separator_in_name(table));
        }
        let name = SledDb::get_full_key(table, key.as_str());
        let data = value.encode();
        match db_insert(&mut self.0, name.as_str().as_bytes(), data) {
            Ok(previous) => {
                proof {
                    law_codec_round_trip(value@);
                    let entries = db_entries(old(self).0);
                    let stored = encode_utf8(full_key(table@, key@));
                    let after = entries.insert(stored, value_bytes(value@));
                    assert forall|at: (Seq<char>, Seq<char>)|
                        plain(at.0) && at != (table@, key@) implies encode_utf8(
                        full_key(at.0, at.1),
                    ) != stored by {
                        if encode_utf8(full_key(at.0, at.1)) == stored {
                            lemma_full_key_injective(at.0, at.1, table@, key@);
                        }
                    }
                    assert(store_of(after) =~= store_of(entries).insert((table@, key@), value@));
                }
                SledDb::stored(previous)
            },
            Err(e) => Err(storage_error("set", table, key.as_str(), &e)),
        }
    }

    fn contains(&self, table: &str, key: &str) -> (r: Result<bool, KvError>)
        ensures
            !plain(table@) ==> r is Err,
            r matches Err(e) ==> backend_error(e@, "contains"@, table@, key@, false),
    {
        if !plain_name(table) {
            return Err(separator_in_name(table));
        }
        let name = SledDb::get_full_key(table, key);
        match db_contains_key(&self.0, name.as_str().as_bytes()) {
            Ok(present) => Ok(present),
            Err(e) => Err(storage_error("contains", table, key, &e)),
        }
    }

    fn del(&mut self, table: &str, key: &str) -> (r: Result<Option<Value>, KvError>)
        ensures
            final(self).path() == old(self).path(),
            !plain(table@) ==> r is Err && final(self).entries() == old(self).entries(),
            damaged_at(old(self).entries(), table@, key@) ==> r is Err,
            written(found_view(r)) ==> final(self).entries() == old(self).entries().remove(
                encode_utf8(full_key(table@, key@)),
            ),
            r matches Err(e) ==> backend_error(
                e@,
                "del"@,
                table@,
                key@,
                damaged_at(old(self).entries(), table@, key@),
            ),
    {
        if !plain_name(table) {
            return Err(separator_in_name(table));
        }
        let name = SledDb::get_full_key(table, key);
        match db_remove(&mut self.0, name.as_str().as_bytes()) {
            Ok(removed) => {
                proof {
                    let entries = db_entries(old(self).0);
                    let stored = encode_utf8(full_key(table@, key@));
                    assert forall|at: (Seq<char>, Seq<char>)|
                        plain(at.0) && at != (table@, key@) implies encode_utf8(
                        full_key(at.0, at.1),
                    ) != stored by {
                        if encode_utf8(full_key(at.0, at.1)) == stored {
                            lemma_full_key_injective(at.0, at.1, table@, key@);
                        }
                    }
                    assert(store_of(entries.remove(stored)) =~= store_of(entries).remove(
                        (table@, key@),
                    ));
                }
                SledDb::stored(removed)
            },
            Err(e) => Err(storage_error("del", table, key, &e)),
        }
    }

    fn get_all(&self, table: &str) -> (r: Result<Vec<Kvpair>, KvError>)
        ensures
            !plain(table@) ==> r is Err,
            damaged_in(self.entries(), table@) ==> r is Err,
            r matches Err(e) ==> backend_error(
                e@,
                "get_all"@,
                table@,
                Seq::empty(),
                damaged_in(self.entries(), table@),
            ),
    {
        if !plain_name(table) {
            return Err(separator_in_name(table));
        }
        let prefix = SledDb::get_table_prefix(table);
        let found = match db_scan_prefix(&self.0, prefix.as_str().as_bytes()) {
            Ok(found) => found,
            Err(e) => {
                proof {
                    reveal_strlit("");
                    assert(""@ =~= Seq::<char>::empty());
                }
                return Err(storage_error("get_all", table, "", &e));
            },
        };
        let ghost scanned = scan_view(found@);
        let ghost raw = found@;
        let r = listing(found);
        proof {
            match &r {
                Ok(pairs) => {
                    let listed = pairs_view(pairs@);
                    assert forall|i: int| 0 <= i < scanned.len() implies entry_view(
                        scanned[i].0,
                        scanned[i].1,
                    ) == Some(#[trigger] listed[i]) by {
                        assert(listed[i] == pairs@[i]@);
                        assert(scanned[i] == (raw[i].0@, raw[i].1@));
                    }
                },
                Err(_) => {
                    let i = choose|i: int|
                        0 <= i < raw.len() && entry_view((#[trigger] raw[i]).0@, raw[i].1@)
                            is None;
                    assert(scanned[i] == (raw[i].0@, raw[i].1@));
                },
            }
            lemma_listing_of_scan(self.entries(), table@, scanned, listing_view(r));
        }
        r
    }

    fn get_iter(&self, table: &str) -> (r: Result<StorageIter, KvError>)
        ensures
            !plain(table@) ==> r is Err,
            damaged_in(self.entries(), table@) ==> r is Err,
            r matches Err(e) ==> backend_error(
                e@,
                "get_all"@,
                table@,
                Seq::empty(),
                damaged_in(self.entries(), table@),
            ),
    {
        match self.get_all(table) {
            Ok(pairs) => Ok(StorageIter::new(pairs)),
            Err(e) => Err(e),
        }
    }
}

} // verus!
