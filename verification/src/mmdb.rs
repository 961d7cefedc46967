//! Geolocation providers: each answers lookups from its own databases and
//! renders the answer through a template.
//!
//! A provider starts without databases. It names the files that it wants,
//! takes the databases that were opened for it, and is then initialized
//! once it holds at least one. From then on it does not change, and what a
//! lookup returns depends on the address, the literal and the template
//! alone.

use crate::address::{address_bytes, IpAddress};
use crate::database::{fields_view, text_of, Database};
use crate::error::Error;
use crate::template::{
    field_names, substitute, table_values, FieldTable, PartView, Template,
};
use crate::text::{replace_spaces, string_views, underscored};
use vstd::prelude::*;
use vstd::utf8::encode_utf8;

verus! {

/// The language of the place names that providers pick.
pub const LANGUAGE: &'static str = "en";

/// A field that templates can refer to.
#[derive(Clone, Debug)]
pub struct TemplateField {
    /// The name of the field, as written in templates.
    pub name: String,
    /// What the field holds.
    pub description: String,
    /// A value that the field can take.
    pub example: String,
}

/// The names of a list of fields.
pub open spec fn field_names_of(fields: Seq<TemplateField>) -> Seq<Seq<char>> {
    Seq::new(fields.len(), |i: int| fields[i].name@)
}

/// A source of geolocation data.
pub trait MmdbProvider: Sized {
    /// Whether the provider holds its databases.
    spec fn ready(&self) -> bool;

    /// The decoration of a literal: the template rendered with the fields
    /// that the provider knows of the address.
    spec fn decoration(&self, address: Seq<u8>, literal: Seq<char>, template: Seq<PartView>) -> Seq<
        char,
    >;

    /// Whether the provider knows an autonomous system of the address.
    spec fn routable(&self, address: Seq<u8>) -> bool;

    /// The name of the provider.
    spec fn spec_name(&self) -> Seq<char>;

    /// The directory in which the databases are looked for by default.
    spec fn spec_default_path(&self) -> Seq<char>;

    /// The files that the provider can use, of which it needs one.
    spec fn spec_required_files(&self) -> Seq<Seq<char>>;

    /// The name of the provider.
    fn name(&self) -> (r: String)
        ensures
            r@ == self.spec_name(),
    ;

    /// The directory in which the databases are looked for by default.
    fn default_path(&self) -> (r: String)
        ensures
            r@ == self.spec_default_path(),
    ;

    /// The files that the provider can use, of which it needs one.
    fn required_files(&self) -> (r: Vec<String>)
        ensures
            string_views(r@) == self.spec_required_files(),
    ;

    /// The names of the fields that its lookups fill.
    spec fn spec_fields(&self) -> Seq<Seq<char>>;

    /// The fields that its lookups fill.
    fn available_fields(&self) -> (r: Vec<TemplateField>)
        ensures
            field_names_of(r@) == self.spec_fields(),
    ;

    /// Tells whether the provider holds its databases.
    fn is_initialized(&self) -> (r: bool)
        ensures
            r == self.ready(),
    ;

    /// The number of files that the provider may want opened.
    spec fn file_count(&self) -> usize;

    /// The provider wants no file with an index from its number of files
    /// on.
    proof fn lemma_no_file_beyond_count(&self, index: usize)
        requires
            index >= self.file_count(),
        ensures
            self.wanted_file(index) is None,
    ;

    /// The number of files that the provider may want opened: it wants no
    /// file with an index from this number on.
    fn database_count(&self) -> (r: usize)
        ensures
            r == self.file_count(),
    ;

    /// The file that the provider wants opened as its database `index`,
    /// unless it has no use for it.
    spec fn wanted_file(&self, index: usize) -> Option<Seq<char>>;

    /// The file that the provider wants opened as its database `index`,
    /// unless it has no use for it.
    fn database_file(&self, index: usize) -> (r: Option<String>)
        ensures
            text_of(r) == self.wanted_file(index),
    ;

    /// Whether `after` is this provider once it has taken the database
    /// that was opened from file `index`: the database stands in the place
    /// that the index names, and everything else is as it was.
    spec fn with_database(&self, index: usize, database: Database, after: Self) -> bool;

    /// Whether the provider holds a database, so that its initialization
    /// can end with success.
    spec fn holds_database(&self) -> bool;

    /// Whether `after` is this provider once its initialization has ended
    /// with success: it is initialized, and everything else is as it was.
    spec fn made_ready(&self, after: Self) -> bool;

    /// Takes the database that was opened from file `index`. Taking a
    /// database does not initialize the provider, and a provider that is
    /// initialized stays as it is.
    fn attach(&mut self, index: usize, database: Database)
        ensures
            old(self).with_database(index, database, *final(self)),
            final(self).ready() == old(self).ready(),
            old(self).ready() ==> *final(self) == *old(self),
    ;

    /// Ends the initialization with the databases taken so far. It
    /// succeeds where the provider holds a database, and the provider is
    /// initialized from then on. Where it holds none, the directory is
    /// reported as holding no database, and the provider stays as it is. A
    /// provider that is initialized stays as it is in either case.
    fn finish_initialize(&mut self, path: &str) -> (r: Result<(), Error>)
        ensures
            old(self).holds_database() ==> r is Ok && old(self).made_ready(*final(self)),
            !old(self).holds_database() ==> (r matches Err(Error::DatabaseNotFound { path: p })
                && p@ == path@),
            r is Ok ==> final(self).ready(),
            r is Err ==> *final(self) == *old(self),
            old(self).ready() ==> *final(self) == *old(self),
    ;

    /// Looks an address up and renders the template with what was found.
    /// Spaces in field values are written as underscores.
    fn lookup(&self, address: &IpAddress, literal: &str, template: &Template) -> (r: String)
        ensures
            r@ == self.decoration(address_bytes(*address), literal@, template@),
    ;

    /// Like `lookup`, but writes the decoration onto the end of `out`.
    fn write_lookup(
        &self,
        out: &mut Vec<u8>,
        address: &IpAddress,
        literal: &str,
        template: &Template,
    )
        ensures
            final(out)@ == old(out)@ + encode_utf8(
                self.decoration(address_bytes(*address), literal@, template@),
            ),
    ;

    /// Tells whether the provider knows an autonomous system of the
    /// address.
    fn has_asn(&self, address: &IpAddress) -> (r: bool)
        ensures
            r == self.routable(address_bytes(*address)),
    ;
}

/// Renders a template with the values of a table. A field that the table
/// does not name renders as the empty text, and no value is read as a
/// template.
pub fn apply_template(template: &Template, values: &FieldTable) -> (r: String)
    ensures
        r@ == substitute(template@, table_values(values@, field_names(template@))),
{
    template.render_with_map(values)
}

/// A field value as it is written: with underscores for spaces, or the
/// default where the value is missing.
pub open spec fn shown(value: Option<Seq<char>>, default: Seq<char>) -> Seq<char> {
    match value {
        Some(v) => underscored(v),
        None => default,
    }
}

/// The text at a position among the texts that a lookup found, if the
/// lookup found anything and the position holds a text.
pub open spec fn found_at(found: Option<Seq<Option<Seq<char>>>>, i: int) -> Option<Seq<char>> {
    match found {
        Some(f) => if 0 <= i < f.len() {
            f[i]
        } else {
            None
        },
        None => None,
    }
}

/// The fields of the canonical provider for a literal, given what was
/// found for its address: of its autonomous system the number and the
/// organization, and of its place the continent, the country code, the
/// country name, the city, the time zone, the latitude and the longitude,
/// each in this order. A field without a value is empty, except for the
/// number of the autonomous system, which is `0`, and the coordinates,
/// which are `0.0`.
pub open spec fn maxmind_table(
    literal: Seq<char>,
    asn: Option<Seq<Option<Seq<char>>>>,
    city: Option<Seq<Option<Seq<char>>>>,
) -> Map<Seq<char>, Seq<char>> {
    let empty = ""@;
    Map::<Seq<char>, Seq<char>>::empty().insert("ip"@, underscored(literal)).insert(
        "asnnum"@,
        shown(found_at(asn, 0), "0"@),
    ).insert("asnorg"@, shown(found_at(asn, 1), empty)).insert(
        "continent"@,
        shown(found_at(city, 0), empty),
    ).insert("country_iso"@, shown(found_at(city, 1), empty)).insert(
        "country_full"@,
        shown(found_at(city, 2), empty),
    ).insert("city"@, shown(found_at(city, 3), empty)).insert(
        "timezone"@,
        shown(found_at(city, 4), empty),
    ).insert("latitude"@, shown(found_at(city, 5), "0.0"@)).insert(
        "longitude"@,
        shown(found_at(city, 6), "0.0"@),
    )
}

/// The fields of a provider that knows the literal alone.
pub open spec fn literal_table(literal: Seq<char>) -> Map<Seq<char>, Seq<char>> {
    Map::<Seq<char>, Seq<char>>::empty().insert("ip"@, underscored(literal))
}

/// The fields of the IPinfo provider for a literal, given the texts found
/// under `country`, `country_name`, `asn` and `asn_name`, in this order.
pub open spec fn ipinfo_table(literal: Seq<char>, found: Option<Seq<Option<Seq<char>>>>) -> Map<
    Seq<char>,
    Seq<char>,
> {
    let empty = ""@;
    Map::<Seq<char>, Seq<char>>::empty().insert("ip"@, underscored(literal)).insert(
        "country"@,
        shown(found_at(found, 0), empty),
    ).insert("country_name"@, shown(found_at(found, 1), empty)).insert(
        "asn"@,
        shown(found_at(found, 2), empty),
    ).insert("asn_name"@, shown(found_at(found, 3), empty))
}

/// A value as it is written, or the default where it is missing.
fn show(value: &Option<String>, default: &str) -> (r: String)
    ensures
        r@ == shown(text_of(*value), default@),
{
    match value {
        Some(v) => replace_spaces(v.as_str()),
        None => String::from_str(default),
    }
}

/// A value among the texts that a lookup found, as it is written.
fn show_found(found: &Option<Vec<Option<String>>>, i: usize, default: &str) -> (r: String)
    ensures
        r@ == shown(found_at(fields_view(*found), i as int), default@),
{
    match found {
        Some(f) => {
            if i < f.len() {
                show(&f[i], default)
            } else {
                String::from_str(default)
            }
        },
        None => String::from_str(default),
    }
}

/// Fills the field table of the canonical provider from what was found
/// for an address.
pub fn maxmind_fields(
    literal: &str,
    asn: &Option<Vec<Option<String>>>,
    city: &Option<Vec<Option<String>>>,
) -> (r: FieldTable)
    ensures
        r@ == maxmind_table(literal@, fields_view(*asn), fields_view(*city)),
{
    let mut table = FieldTable::new();
    table.insert(String::from_str("ip"), replace_spaces(literal));
    table.insert(String::from_str("asnnum"), show_found(asn, 0, "0"));
    table.insert(String::from_str("asnorg"), show_found(asn, 1, ""));
    table.insert(String::from_str("continent"), show_found(city, 0, ""));
    table.insert(String::from_str("country_iso"), show_found(city, 1, ""));
    table.insert(String::from_str("country_full"), show_found(city, 2, ""));
    table.insert(String::from_str("city"), show_found(city, 3, ""));
    table.insert(String::from_str("timezone"), show_found(city, 4, ""));
    table.insert(String::from_str("latitude"), show_found(city, 5, "0.0"));
    table.insert(String::from_str("longitude"), show_found(city, 6, "0.0"));
    table
}

/// Fills the field table of a provider that knows the literal alone.
pub fn literal_fields(literal: &str) -> (r: FieldTable)
    ensures
        r@ == literal_table(literal@),
{
    let mut table = FieldTable::new();
    table.insert(String::from_str("ip"), replace_spaces(literal));
    table
}

/// Fills the field table of the IPinfo provider from the texts that were
/// found for an address.
pub fn ipinfo_fields(literal: &str, found: &Option<Vec<Option<String>>>) -> (r: FieldTable)
    ensures
        r@ == ipinfo_table(literal@, fields_view(*found)),
{
    let mut table = FieldTable::new();
    table.insert(String::from_str("ip"), replace_spaces(literal));
    table.insert(String::from_str("country"), show_found(found, 0, ""));
    table.insert(String::from_str("country_name"), show_found(found, 1, ""));
    table.insert(String::from_str("asn"), show_found(found, 2, ""));
    table.insert(String::from_str("asn_name"), show_found(found, 3, ""));
    table
}

} // verus!
