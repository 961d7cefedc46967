//! Geolocation databases in the MaxMind DB format, and the records that
//! lookups in them give.
//!
//! A database is held in memory as the bytes of its file. What a lookup
//! returns depends on those bytes and on the address, and on nothing else.
//! A lookup finds the record of an address first, and reads the values at
//! paths in that record one by one, each as a value of the kind that is
//! asked for.

use crate::address::{address_bytes, IpAddress};
use crate::error::Error;
use crate::text::{decimal_string, decimal_text};
use maxminddb::geoip2::city::Location;
use maxminddb::{LookupResult, PathElement, Reader};
use vstd::prelude::*;

verus! {

/// A database, ready for lookups. It holds a `maxminddb::Reader` over the
/// bytes that it was opened from.
#[verifier::external_body]
#[derive(Debug)]
pub struct Database {
    reader: Reader<Vec<u8>>,
}

/// What a database answers to the lookup of one address. It holds a
/// `maxminddb::LookupResult`, which borrows the database.
#[verifier::external_body]
pub struct Record<'a> {
    found: LookupResult<'a, Vec<u8>>,
}

/// The kind of value that is read at a path in a record.
#[derive(Clone, Copy, Debug, PartialEq, Eq)]
pub enum Kind {
    /// A text.
    Text,
    /// A whole number of at most 32 bits, which is written in decimal.
    Whole,
    /// The latitude of a place, which is written in decimal.
    Latitude,
    /// The longitude of a place, which is written in decimal.
    Longitude,
}

/// The text of a string that may be missing.
pub open spec fn text_of(s: Option<String>) -> Option<Seq<char>> {
    match s {
        Some(s) => Some(s@),
        None => None,
    }
}

/// The texts of a sequence of strings that may be missing.
pub open spec fn texts_of(v: Seq<Option<String>>) -> Seq<Option<Seq<char>>> {
    Seq::new(v.len(), |i: int| text_of(v[i]))
}

/// The texts that a lookup found, if it found a record.
pub open spec fn fields_view(r: Option<Vec<Option<String>>>) -> Option<Seq<Option<Seq<char>>>> {
    match r {
        Some(v) => Some(texts_of(v@)),
        None => None,
    }
}

/// The bytes that a database was opened from.
pub uninterp spec fn database_bytes(db: Database) -> Seq<u8>;

/// Whether bytes are a database: whether they hold the metadata and the
/// search tree that a reader asks for when it is opened.
pub uninterp spec fn is_database(bytes: Seq<u8>) -> bool;

/// The bytes of the database that a record comes from, and the address
/// that was looked up, given by its bytes in network order.
pub uninterp spec fn record_source(record: Record) -> (Seq<u8>, Seq<u8>);

/// Whether a database with the given bytes answers the lookup of an
/// address.
pub uninterp spec fn lookup_answers(bytes: Seq<u8>, address: Seq<u8>) -> bool;

/// Whether the answer of a database with the given bytes to the lookup of
/// an address holds data.
pub uninterp spec fn holds_data(bytes: Seq<u8>, address: Seq<u8>) -> bool;

/// The text at a path in the record that a database with the given bytes
/// holds for an address, if the path leads to a text.
pub uninterp spec fn text_in(bytes: Seq<u8>, address: Seq<u8>, path: Seq<Seq<char>>) -> Option<
    Seq<char>,
>;

/// The whole number at a path in the record that a database with the
/// given bytes holds for an address, if the path leads to one of at most 32
/// bits.
pub uninterp spec fn whole_in(bytes: Seq<u8>, address: Seq<u8>, path: Seq<Seq<char>>) -> Option<u32>;

/// The latitude and the longitude of the place at a path in the record
/// that a database with the given bytes holds for an address, each written
/// in decimal, and each only if the path leads to a place that has it.
pub uninterp spec fn place_in(bytes: Seq<u8>, address: Seq<u8>, path: Seq<Seq<char>>) -> (
    Option<Seq<char>>,
    Option<Seq<char>>,
);

/// The value of a kind at a path in the record of an address, as a text.
pub open spec fn value_in(bytes: Seq<u8>, address: Seq<u8>, path: Seq<Seq<char>>, kind: Kind) -> Option<
    Seq<char>,
> {
    match kind {
        Kind::Text => text_in(bytes, address, path),
        Kind::Whole => match whole_in(bytes, address, path) {
            Some(n) => Some(decimal_text(n as nat)),
            None => None,
        },
        Kind::Latitude => place_in(bytes, address, path).0,
        Kind::Longitude => place_in(bytes, address, path).1,
    }
}

/// The values at the given paths in the record that a database with the
/// given bytes holds for an address: one for each path in order, of the
/// kind that stands at its position, and none where the path leads to no
/// value of that kind. Nothing, where the database does not answer or the
/// answer holds no data.
pub open spec fn values_in(
    bytes: Seq<u8>,
    address: Seq<u8>,
    paths: Seq<Seq<Seq<char>>>,
    kinds: Seq<Kind>,
) -> Option<Seq<Option<Seq<char>>>> {
    if lookup_answers(bytes, address) && holds_data(bytes, address) {
        Some(Seq::new(paths.len(), |i: int| value_in(bytes, address, paths[i], kinds[i])))
    } else {
        None
    }
}

/// The texts of a path.
pub open spec fn path_text(path: Vec<&'static str>) -> Seq<Seq<char>> {
    Seq::new(path@.len(), |i: int| path@[i]@)
}

/// The texts of a list of paths.
pub open spec fn path_texts(paths: Seq<Vec<&'static str>>) -> Seq<Seq<Seq<char>>> {
    Seq::new(paths.len(), |i: int| path_text(paths[i]))
}

/// Calls `maxminddb::Reader::from_source`. The contract claims that a
/// database that comes back was opened from the bytes given, and names the
/// outcome: whether the call succeeds depends on the bytes alone. It does
/// not say which bytes are a database.
#[verifier::external_body]
fn open_reader(bytes: Vec<u8>) -> (r: Option<Database>)
    ensures
        (r is Some) == is_database(bytes@),
        r matches Some(db) ==> database_bytes(db) == bytes@,
{
    Reader::from_source(bytes).ok().map(|reader| Database { reader })
}

/// Calls `maxminddb::Reader::lookup`. The contract names the outcome, and
/// claims that a record that comes back is that of the database and the
/// address given. A lookup that fails counts as one without answer.
#[verifier::external_body]
fn find_record<'a>(db: &'a Database, address: &IpAddress) -> (r: Option<Record<'a>>)
    ensures
        (r is Some) == lookup_answers(database_bytes(*db), address_bytes(*address)),
        r matches Some(record) ==> record_source(record) == (
            database_bytes(*db),
            address_bytes(*address),
        ),
{
    let ip = match *address {
        IpAddress::V4(v) => v.octets().into(),
        IpAddress::V6(v) => v.groups.into(),
    };
    db.reader.lookup(ip).ok().map(|found| Record { found })
}

/// Calls `maxminddb::LookupResult::has_data`. The contract names the
/// result.
#[verifier::external_body]
fn record_has_data(record: &Record) -> (r: bool)
    ensures
        r == holds_data(record_source(*record).0, record_source(*record).1),
{
    record.found.has_data()
}

/// Calls `maxminddb::LookupResult::decode_path` for a text. The contract
/// names the result. A path that cannot be decoded counts as one that
/// leads to nothing.
#[verifier::external_body]
fn decode_text(record: &Record, path: &Vec<&'static str>) -> (r: Option<String>)
    ensures
        text_of(r) == text_in(record_source(*record).0, record_source(*record).1, path_text(*path)),
{
    let keys: Vec<PathElement> = path.iter().map(|k| PathElement::Key(k)).collect();
    record.found.decode_path::<String>(&keys).ok().flatten()
}

/// Calls `maxminddb::LookupResult::decode_path` for a whole number. The
/// contract names the result. A path that cannot be decoded counts as one
/// that leads to nothing.
#[verifier::external_body]
fn decode_whole(record: &Record, path: &Vec<&'static str>) -> (r: Option<u32>)
    ensures
        r == whole_in(record_source(*record).0, record_source(*record).1, path_text(*path)),
{
    let keys: Vec<PathElement> = path.iter().map(|k| PathElement::Key(k)).collect();
    record.found.decode_path::<u32>(&keys).ok().flatten()
}

/// Calls `maxminddb::LookupResult::decode_path` for a place, and
/// `ToString::to_string` on each of its two coordinates. The contract names
/// the result. A path that cannot be decoded counts as one that leads to
/// nothing.
#[verifier::external_body]
fn decode_place(record: &Record, path: &Vec<&'static str>) -> (r: (Option<String>, Option<String>))
    ensures
        (text_of(r.0), text_of(r.1)) == place_in(
            record_source(*record).0,
            record_source(*record).1,
            path_text(*path),
        ),
{
    let keys: Vec<PathElement> = path.iter().map(|k| PathElement::Key(k)).collect();
    let place = record.found.decode_path::<Location>(&keys).ok().flatten();
    (
        place.as_ref().and_then(|p| p.latitude).map(|v| v.to_string()),
        place.as_ref().and_then(|p| p.longitude).map(|v| v.to_string()),
    )
}

/// Looks an address up in a database and reads the values at the given
/// paths in its record, each as a value of the kind at its position.
pub(crate) fn lookup_values(
    db: &Database,
    address: &IpAddress,
    paths: &Vec<Vec<&'static str>>,
    kinds: &Vec<Kind>,
) -> (r: Option<Vec<Option<String>>>)
    requires
        paths@.len() == kinds@.len(),
    ensures
        fields_view(r) == values_in(
            database_bytes(*db),
            address_bytes(*address),
            path_texts(paths@),
            kinds@,
        ),
{
    let ghost bytes = database_bytes(*db);
    let ghost source = address_bytes(*address);
    let record = match find_record(db, address) {
        Some(record) => record,
        None => {
            return None;
        },
    };
    if !record_has_data(&record) {
        return None;
    }
    let mut values: Vec<Option<String>> = Vec::new();
    let mut i: usize = 0;
    while i < paths.len()
        invariant
            0 <= i <= paths@.len(),
            paths@.len() == kinds@.len(),
            record_source(record) == (bytes, source),
            values@.len() == i,
            forall|k: int|
                0 <= k < i ==> text_of(#[trigger] values@[k]) == value_in(
                    bytes,
                    source,
                    path_text(paths@[k]),
                    kinds@[k],
                ),
        decreases paths@.len() - i,
    {
        let value = match kinds[i] {
            Kind::Text => decode_text(&record, &paths[i]),
            Kind::Whole => match decode_whole(&record, &paths[i]) {
                Some(n) => Some(decimal_string(n as usize)),
                None => None,
            },
            Kind::Latitude => decode_place(&record, &paths[i]).0,
            Kind::Longitude => decode_place(&record, &paths[i]).1,
        };
        values.push(value);
        i += 1;
    }
    assert(texts_of(values@) =~= Seq::new(
        path_texts(paths@).len(),
        |i: int| value_in(bytes, source, path_texts(paths@)[i], kinds@[i]),
    ));
    Some(values)
}

impl Database {
    /// Opens a database from the bytes of its file. It succeeds exactly
    /// where the bytes are a database, and otherwise names the file.
    pub fn open(file: &str, bytes: Vec<u8>) -> (r: Result<Database, Error>)
        ensures
            (r is Ok) == is_database(bytes@),
            match r {
                Ok(db) => database_bytes(db) == bytes@,
                Err(e) => e matches Error::InvalidDatabase { file: f } && f@ == file@,
            },
    {
        match open_reader(bytes) {
            Some(db) => Ok(db),
            None => Err(Error::InvalidDatabase { file: String::from_str(file) }),
        }
    }
}

} // verus!
