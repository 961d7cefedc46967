//! The providers that come with the library.

use crate::address::{address_bytes, IpAddress};
use crate::database::{
    database_bytes, fields_view, lookup_values, path_text, path_texts, values_in, Database, Kind,
};
use crate::error::Error;
use crate::mmdb::{
    apply_template, field_names_of, found_at, ipinfo_fields, ipinfo_table, literal_fields, literal_table,
    maxmind_fields, maxmind_table, MmdbProvider, TemplateField, LANGUAGE,
};
use crate::template::{field_names, substitute, table_values, PartView, Template};
use crate::text::string_views;
use vstd::prelude::*;

verus! {

/// Makes the description of a field.
pub fn template_field(name: &str, description: &str, example: &str) -> (r: TemplateField)
    ensures
        r.name@ == name@,
        r.description@ == description@,
        r.example@ == example@,
{
    TemplateField {
        name: String::from_str(name),
        description: String::from_str(description),
        example: String::from_str(example),
    }
}

/// The file that the canonical provider wants opened as its database
/// `index`: the two combined databases first, then the databases of one
/// family each, which are wanted only where the combined one is missing.
pub open spec fn maxmind_file(index: int, has_asn: bool, has_city: bool) -> Option<Seq<char>> {
    if index == 0 {
        Some("GeoLite2-ASN.mmdb"@)
    } else if index == 1 {
        Some("GeoLite2-City.mmdb"@)
    } else if index == 2 && !has_asn {
        Some("GeoLite2-ASN-IPv4.mmdb"@)
    } else if index == 3 && !has_asn {
        Some("GeoLite2-ASN-IPv6.mmdb"@)
    } else if index == 4 && !has_city {
        Some("GeoLite2-City-IPv4.mmdb"@)
    } else if index == 5 && !has_city {
        Some("GeoLite2-City-IPv6.mmdb"@)
    } else {
        None
    }
}

/// Where a record holds the number and the organization of an autonomous
/// system.
pub open spec fn asn_paths() -> Seq<Seq<Seq<char>>> {
    seq![seq!["autonomous_system_number"@], seq!["autonomous_system_organization"@]]
}

/// Where a record holds the continent, the country code, the country
/// name, the city and the time zone of a place, and, twice, the place
/// itself, of which the latitude and the longitude are read.
pub open spec fn city_paths() -> Seq<Seq<Seq<char>>> {
    seq![
        seq!["continent"@, "code"@],
        seq!["country"@, "iso_code"@],
        seq!["country"@, "names"@, LANGUAGE@],
        seq!["city"@, "names"@, LANGUAGE@],
        seq!["location"@, "time_zone"@],
        seq!["location"@],
        seq!["location"@],
    ]
}

/// A path of one step.
fn path1(a: &'static str) -> (r: Vec<&'static str>)
    ensures
        path_text(r) == seq![a@],
{
    let mut p: Vec<&'static str> = Vec::new();
    p.push(a);
    assert(path_text(p) =~= seq![a@]);
    p
}

/// A path of two steps.
fn path2(a: &'static str, b: &'static str) -> (r: Vec<&'static str>)
    ensures
        path_text(r) == seq![a@, b@],
{
    let mut p: Vec<&'static str> = Vec::new();
    p.push(a);
    p.push(b);
    assert(path_text(p) =~= seq![a@, b@]);
    p
}

/// A path of three steps.
fn path3(a: &'static str, b: &'static str, c: &'static str) -> (r: Vec<&'static str>)
    ensures
        path_text(r) == seq![a@, b@, c@],
{
    let mut p: Vec<&'static str> = Vec::new();
    p.push(a);
    p.push(b);
    p.push(c);
    assert(path_text(p) =~= seq![a@, b@, c@]);
    p
}

/// The kinds of what a record holds of an autonomous system: its number is
/// a whole number, and its organization a text.
pub open spec fn asn_kinds() -> Seq<Kind> {
    seq![Kind::Whole, Kind::Text]
}

/// The kinds of what a record holds of a place: texts, and at their end
/// the two coordinates.
pub open spec fn city_kinds() -> Seq<Kind> {
    seq![
        Kind::Text,
        Kind::Text,
        Kind::Text,
        Kind::Text,
        Kind::Text,
        Kind::Latitude,
        Kind::Longitude,
    ]
}

/// Looks up what a database holds of the autonomous system of an address.
fn find_asn(db: &Database, address: &IpAddress) -> (r: Option<Vec<Option<String>>>)
    ensures
        fields_view(r) == values_in(
            database_bytes(*db),
            address_bytes(*address),
            asn_paths(),
            asn_kinds(),
        ),
{
    let mut paths: Vec<Vec<&'static str>> = Vec::new();
    paths.push(path1("autonomous_system_number"));
    paths.push(path1("autonomous_system_organization"));
    assert(path_texts(paths@) =~= asn_paths());
    let mut kinds: Vec<Kind> = Vec::new();
    kinds.push(Kind::Whole);
    kinds.push(Kind::Text);
    assert(kinds@ =~= asn_kinds());
    lookup_values(db, address, &paths, &kinds)
}

/// Looks up what a database holds of the place of an address.
fn find_city(db: &Database, address: &IpAddress) -> (r: Option<Vec<Option<String>>>)
    ensures
        fields_view(r) == values_in(
            database_bytes(*db),
            address_bytes(*address),
            city_paths(),
            city_kinds(),
        ),
{
    let mut paths: Vec<Vec<&'static str>> = Vec::new();
    paths.push(path2("continent", "code"));
    paths.push(path2("country", "iso_code"));
    paths.push(path3("country", "names", LANGUAGE));
    paths.push(path3("city", "names", LANGUAGE));
    paths.push(path2("location", "time_zone"));
    paths.push(path1("location"));
    paths.push(path1("location"));
    assert(path_texts(paths@) =~= city_paths());
    let mut kinds: Vec<Kind> = Vec::new();
    kinds.push(Kind::Text);
    kinds.push(Kind::Text);
    kinds.push(Kind::Text);
    kinds.push(Kind::Text);
    kinds.push(Kind::Text);
    kinds.push(Kind::Latitude);
    kinds.push(Kind::Longitude);
    assert(kinds@ =~= city_kinds());
    lookup_values(db, address, &paths, &kinds)
}

/// The provider for databases in the GeoLite2 and GeoIP2 layout.
#[derive(Debug)]
pub struct MaxMindProvider {
    name: String,
    initialized: bool,
    asn_db: Option<Database>,
    city_db: Option<Database>,
    ipv4_db: Option<Database>,
    ipv6_db: Option<Database>,
}

impl MaxMindProvider {
    /// The combined database of autonomous systems, if the provider holds one.
    pub closed spec fn spec_asn_db(&self) -> Option<Database> {
        self.asn_db
    }

    /// The combined database of places, if the provider holds one.
    pub closed spec fn spec_city_db(&self) -> Option<Database> {
        self.city_db
    }

    /// The database for IPv4 alone, if the provider holds one.
    pub closed spec fn spec_ipv4_db(&self) -> Option<Database> {
        self.ipv4_db
    }

    /// The database for IPv6 alone, if the provider holds one.
    pub closed spec fn spec_ipv6_db(&self) -> Option<Database> {
        self.ipv6_db
    }

    /// Whether the initialization has ended with success.
    pub closed spec fn spec_initialized(&self) -> bool {
        self.initialized
    }

    /// The name of the provider.
    pub closed spec fn name_text(&self) -> Seq<char> {
        self.name@
    }

    /// The database that answers for the autonomous system of an address:
    /// the combined one, or else the one of the family of the address.
    pub open spec fn asn_source(&self, address: Seq<u8>) -> Option<Database> {
        if self.spec_asn_db() is Some {
            self.spec_asn_db()
        } else if address.len() == 4 {
            self.spec_ipv4_db()
        } else {
            self.spec_ipv6_db()
        }
    }

    /// What a lookup finds of the autonomous system of an address.
    pub open spec fn asn_found(&self, address: Seq<u8>) -> Option<Seq<Option<Seq<char>>>> {
        if !self.spec_initialized() {
            None
        } else {
            match self.asn_source(address) {
                Some(db) => values_in(database_bytes(db), address, asn_paths(), asn_kinds()),
                None => None,
            }
        }
    }

    /// What a lookup finds of the place of an address.
    pub open spec fn city_found(&self, address: Seq<u8>) -> Option<Seq<Option<Seq<char>>>> {
        if !self.spec_initialized() {
            None
        } else {
            match self.spec_city_db() {
                Some(db) => values_in(database_bytes(db), address, city_paths(), city_kinds()),
                None => None,
            }
        }
    }

    /// A provider without databases.
    pub fn new() -> (r: MaxMindProvider)
        ensures
            r.name_text() == "MaxMind GeoIP2"@,
            !r.spec_initialized(),
            r.spec_asn_db() is None,
            r.spec_city_db() is None,
            r.spec_ipv4_db() is None,
            r.spec_ipv6_db() is None,
    {
        MaxMindProvider {
            name: String::from_str("MaxMind GeoIP2"),
            initialized: false,
            asn_db: None,
            city_db: None,
            ipv4_db: None,
            ipv6_db: None,
        }
    }

    /// The directories in which the databases are looked for by default,
    /// the preferred one first.
    pub fn default_paths() -> (r: Vec<String>)
        ensures
            string_views(r@) == seq![
                "/usr/share/GeoIP"@,
                "/opt/homebrew/var/GeoIP"@,
                "/var/lib/GeoIP"@,
            ],
    {
        let mut paths: Vec<String> = Vec::new();
        paths.push(String::from_str("/usr/share/GeoIP"));
        paths.push(String::from_str("/opt/homebrew/var/GeoIP"));
        paths.push(String::from_str("/var/lib/GeoIP"));
        assert(string_views(paths@) =~= seq![
            "/usr/share/GeoIP"@,
            "/opt/homebrew/var/GeoIP"@,
            "/var/lib/GeoIP"@,
        ]);
        paths
    }
}

impl Default for MaxMindProvider {
    fn default() -> (r: Self)
        ensures
            r.name_text() == "MaxMind GeoIP2"@,
            !r.spec_initialized(),
    {
        MaxMindProvider::new()
    }
}

impl MmdbProvider for MaxMindProvider {
    open spec fn spec_name(&self) -> Seq<char> {
        self.name_text()
    }

    open spec fn spec_default_path(&self) -> Seq<char> {
        "/usr/share/GeoIP"@
    }

    open spec fn spec_required_files(&self) -> Seq<Seq<char>> {
        seq![
            "GeoLite2-ASN.mmdb"@,
            "GeoLite2-City.mmdb"@,
            "GeoLite2-ASN-IPv4.mmdb"@,
            "GeoLite2-ASN-IPv6.mmdb"@,
            "GeoLite2-City-IPv4.mmdb"@,
            "GeoLite2-City-IPv6.mmdb"@,
        ]
    }

    open spec fn ready(&self) -> bool {
        self.spec_initialized()
    }

    open spec fn decoration(&self, address: Seq<u8>, literal: Seq<char>, template: Seq<PartView>) -> Seq<
        char,
    > {
        substitute(
            template,
            table_values(
                maxmind_table(literal, self.asn_found(address), self.city_found(address)),
                field_names(template),
            ),
        )
    }

    open spec fn routable(&self, address: Seq<u8>) -> bool {
        &&& self.spec_initialized()
        &&& self.spec_asn_db() is Some
        &&& found_at(self.asn_found(address), 0) is Some
    }

    fn name(&self) -> (r: String) {
        self.name.clone()
    }

    fn default_path(&self) -> (r: String) {
        String::from_str("/usr/share/GeoIP")
    }

    fn required_files(&self) -> (r: Vec<String>) {
        let mut files: Vec<String> = Vec::new();
        files.push(String::from_str("GeoLite2-ASN.mmdb"));
        files.push(String::from_str("GeoLite2-City.mmdb"));
        files.push(String::from_str("GeoLite2-ASN-IPv4.mmdb"));
        files.push(String::from_str("GeoLite2-ASN-IPv6.mmdb"));
        files.push(String::from_str("GeoLite2-City-IPv4.mmdb"));
        files.push(String::from_str("GeoLite2-City-IPv6.mmdb"));
        assert(string_views(files@) =~= seq![
            "GeoLite2-ASN.mmdb"@,
            "GeoLite2-City.mmdb"@,
            "GeoLite2-ASN-IPv4.mmdb"@,
            "GeoLite2-ASN-IPv6.mmdb"@,
            "GeoLite2-City-IPv4.mmdb"@,
            "GeoLite2-City-IPv6.mmdb"@,
        ]);
        files
    }

    open spec fn spec_fields(&self) -> Seq<Seq<char>> {
        seq![
                "ip"@,
                "asnnum"@,
                "asnorg"@,
                "city"@,
                "continent"@,
                "country_iso"@,
                "country_full"@,
                "latitude"@,
                "longitude"@,
                "timezone"@,
            ]
    }

    fn available_fields(&self) -> (r: Vec<TemplateField>) {
        let mut fields: Vec<TemplateField> = Vec::new();
        fields.push(template_field("ip", "The IP address itself", "93.184.216.34"));
        fields.push(template_field("asnnum", "Autonomous System Number", "15133"));
        fields.push(
            template_field(
                "asnorg",
                "Autonomous System Organization",
                "MCI Communications Services",
            ),
        );
        fields.push(template_field("city", "City name", "Los Angeles"));
        fields.push(template_field("continent", "Continent code", "NA"));
        fields.push(template_field("country_iso", "Country ISO code", "US"));
        fields.push(template_field("country_full", "Full country name", "United States"));
        fields.push(template_field("latitude", "Latitude coordinate", "34.0544"));
        fields.push(template_field("longitude", "Longitude coordinate", "-118.2441"));
        fields.push(template_field("timezone", "Time zone name", "America/Los_Angeles"));
        assert(field_names_of(fields@) =~= seq![
            "ip"@,
            "asnnum"@,
            "asnorg"@,
            "city"@,
            "continent"@,
            "country_iso"@,
            "country_full"@,
            "latitude"@,
            "longitude"@,
            "timezone"@,
        ]);
        fields
    }

    fn is_initialized(&self) -> (r: bool) {
        self.initialized
    }

    open spec fn file_count(&self) -> usize {
        6
    }

    proof fn lemma_no_file_beyond_count(&self, index: usize) {
    }

    fn database_count(&self) -> (r: usize) {
        6
    }

    /// Once the provider is initialized it wants no more files.
    open spec fn wanted_file(&self, index: usize) -> Option<Seq<char>> {
        if self.spec_initialized() {
            None
        } else {
            maxmind_file(index as int, self.spec_asn_db() is Some, self.spec_city_db() is Some)
        }
    }

    fn database_file(&self, index: usize) -> (r: Option<String>) {
        if self.initialized {
            return None;
        }
        let has_asn = self.asn_db.is_some();
        let has_city = self.city_db.is_some();
        if index == 0 {
            Some(String::from_str("GeoLite2-ASN.mmdb"))
        } else if index == 1 {
            Some(String::from_str("GeoLite2-City.mmdb"))
        } else if index == 2 && !has_asn {
            Some(String::from_str("GeoLite2-ASN-IPv4.mmdb"))
        } else if index == 3 && !has_asn {
            Some(String::from_str("GeoLite2-ASN-IPv6.mmdb"))
        } else if index == 4 && !has_city {
            Some(String::from_str("GeoLite2-City-IPv4.mmdb"))
        } else if index == 5 && !has_city {
            Some(String::from_str("GeoLite2-City-IPv6.mmdb"))
        } else {
            None
        }
    }

    /// The combined databases go to their own places. The databases of one
    /// family go to the place of that family, whichever kind they are. A
    /// provider that is initialized takes nothing.
    open spec fn with_database(&self, index: usize, database: Database, after: Self) -> bool {
        let taken = !self.spec_initialized();
        &&& after.name_text() == self.name_text()
        &&& after.spec_initialized() == self.spec_initialized()
        &&& after.spec_asn_db() == (if index == 0 && taken {
            Some(database)
        } else {
            self.spec_asn_db()
        })
        &&& after.spec_city_db() == (if index == 1 && taken {
            Some(database)
        } else {
            self.spec_city_db()
        })
        &&& after.spec_ipv4_db() == (if (index == 2 || index == 4) && taken {
            Some(database)
        } else {
            self.spec_ipv4_db()
        })
        &&& after.spec_ipv6_db() == (if (index == 3 || index == 5) && taken {
            Some(database)
        } else {
            self.spec_ipv6_db()
        })
    }

    /// The provider holds a database where any of its four places is
    /// filled.
    open spec fn holds_database(&self) -> bool {
        ||| self.spec_asn_db() is Some
        ||| self.spec_city_db() is Some
        ||| self.spec_ipv4_db() is Some
        ||| self.spec_ipv6_db() is Some
    }

    open spec fn made_ready(&self, after: Self) -> bool {
        &&& after.spec_initialized()
        &&& after.name_text() == self.name_text()
        &&& after.spec_asn_db() == self.spec_asn_db()
        &&& after.spec_city_db() == self.spec_city_db()
        &&& after.spec_ipv4_db() == self.spec_ipv4_db()
        &&& after.spec_ipv6_db() == self.spec_ipv6_db()
    }

    fn attach(&mut self, index: usize, database: Database)
    {
        if self.initialized {
            return ;
        }
        if index == 0 {
            self.asn_db = Some(database);
        } else if index == 1 {
            self.city_db = Some(database);
        } else if index == 2 || index == 4 {
            self.ipv4_db = Some(database);
        } else if index == 3 || index == 5 {
            self.ipv6_db = Some(database);
        }
    }

    fn finish_initialize(&mut self, path: &str) -> (r: Result<(), Error>)
    {
        if self.asn_db.is_none() && self.city_db.is_none() && self.ipv4_db.is_none()
            && self.ipv6_db.is_none() {
            return Err(Error::DatabaseNotFound { path: String::from_str(path) });
        }
        self.initialized = true;
        Ok(())
    }

    fn lookup(&self, address: &IpAddress, literal: &str, template: &Template) -> (r: String) {
        let asn = if !self.initialized {
            None
        } else {
            match &self.asn_db {
                Some(db) => find_asn(db, address),
                None => {
                    let family = if address.is_ipv4() {
                        &self.ipv4_db
                    } else {
                        &self.ipv6_db
                    };
                    match family {
                        Some(db) => find_asn(db, address),
                        None => None,
                    }
                },
            }
        };
        let city = if !self.initialized {
            None
        } else {
            match &self.city_db {
                Some(db) => find_city(db, address),
                None => None,
            }
        };
        let table = maxmind_fields(literal, &asn, &city);
        apply_template(template, &table)
    }

    fn write_lookup(
        &self,
        out: &mut Vec<u8>,
        address: &IpAddress,
        literal: &str,
        template: &Template,
    ) {
        let decoration = self.lookup(address, literal, template);
        out.extend_from_slice(decoration.as_str().as_bytes());
    }

    fn has_asn(&self, address: &IpAddress) -> (r: bool) {
        if !self.initialized {
            return false;
        }
        match &self.asn_db {
            Some(db) => match find_asn(db, address) {
                Some(found) => found.len() > 0 && found[0].is_some(),
                None => false,
            },
            None => false,
        }
    }
}

/// A provider with one database, which needs that database.
#[derive(Debug)]
pub struct SingleDatabase {
    initialized: bool,
    db: Option<Database>,
}

impl SingleDatabase {
    /// The database, if the provider holds it.
    pub closed spec fn spec_db(&self) -> Option<Database> {
        self.db
    }

    /// Whether the initialization has ended with success.
    pub closed spec fn spec_initialized(&self) -> bool {
        self.initialized
    }

    /// The bytes of the database, once the provider is initialized.
    pub open spec fn bytes(&self) -> Option<Seq<u8>> {
        if self.spec_initialized() {
            match self.spec_db() {
                Some(db) => Some(database_bytes(db)),
                None => None,
            }
        } else {
            None
        }
    }

    /// A provider state without database.
    pub fn new() -> (r: SingleDatabase)
        ensures
            !r.spec_initialized(),
            r.spec_db() is None,
    {
        SingleDatabase { initialized: false, db: None }
    }

    /// Tells whether the initialization has ended with success.
    pub fn is_initialized(&self) -> (r: bool)
        ensures
            r == self.spec_initialized(),
    {
        self.initialized
    }

    /// Whether the file with the given index is wanted: the first, until
    /// the provider is initialized.
    pub fn wants(&self, index: usize) -> (r: bool)
        ensures
            r == (index == 0 && !self.spec_initialized()),
    {
        index == 0 && !self.initialized
    }

    /// Takes the database, unless the index is not its index or the
    /// initialization has ended.
    pub fn attach(&mut self, index: usize, database: Database)
        ensures
            final(self).spec_initialized() == old(self).spec_initialized(),
            final(self).spec_db() == (if index == 0 && !old(self).spec_initialized() {
                Some(database)
            } else {
                old(self).spec_db()
            }),
    {
        if index == 0 && !self.initialized {
            self.db = Some(database);
        }
    }

    /// Ends the initialization. It succeeds where the database is there.
    pub fn finish(&mut self, path: &str) -> (r: Result<(), Error>)
        ensures
            final(self).spec_db() == old(self).spec_db(),
            old(self).spec_db() is Some ==> r is Ok && final(self).spec_initialized(),
            old(self).spec_db() is None ==> (r matches Err(Error::DatabaseNotFound { path: p })
                && p@ == path@) && final(self).spec_initialized() == old(self).spec_initialized(),
    {
        if self.db.is_none() {
            return Err(Error::DatabaseNotFound { path: String::from_str(path) });
        }
        self.initialized = true;
        Ok(())
    }

    /// The database, once the provider is initialized.
    pub fn database(&self) -> (r: Option<&Database>)
        ensures
            match r {
                Some(db) => self.bytes() == Some(database_bytes(*db)),
                None => self.bytes() is None,
            },
    {
        if !self.initialized {
            return None;
        }
        self.db.as_ref()
    }
}

/// The provider for IP2Location databases. It knows the literal alone.
#[derive(Debug)]
pub struct IP2LocationProvider {
    name: String,
    state: SingleDatabase,
}

impl IP2LocationProvider {
    /// The database of the provider, and whether it is initialized.
    pub closed spec fn state(&self) -> SingleDatabase {
        self.state
    }

    /// The name of the provider.
    pub closed spec fn name_text(&self) -> Seq<char> {
        self.name@
    }

    /// A provider without database.
    pub fn new() -> (r: IP2LocationProvider)
        ensures
            r.name_text() == "IP2Location"@,
            !r.state().spec_initialized(),
            r.state().spec_db() is None,
    {
        IP2LocationProvider { name: String::from_str("IP2Location"), state: SingleDatabase::new() }
    }
}

impl Default for IP2LocationProvider {
    fn default() -> (r: Self)
        ensures
            r.name_text() == "IP2Location"@,
            !r.state().spec_initialized(),
    {
        IP2LocationProvider::new()
    }
}

impl MmdbProvider for IP2LocationProvider {
    open spec fn spec_name(&self) -> Seq<char> {
        self.name_text()
    }

    open spec fn spec_default_path(&self) -> Seq<char> {
        "/usr/share/IP2Location"@
    }

    open spec fn spec_required_files(&self) -> Seq<Seq<char>> {
        seq!["IP2LOCATION-LITE-DB11.MMDB"@]
    }

    open spec fn ready(&self) -> bool {
        self.state().spec_initialized()
    }

    open spec fn decoration(&self, address: Seq<u8>, literal: Seq<char>, template: Seq<PartView>) -> Seq<
        char,
    > {
        substitute(template, table_values(literal_table(literal), field_names(template)))
    }

    open spec fn routable(&self, address: Seq<u8>) -> bool {
        false
    }

    fn name(&self) -> (r: String) {
        self.name.clone()
    }

    fn default_path(&self) -> (r: String) {
        String::from_str("/usr/share/IP2Location")
    }

    fn required_files(&self) -> (r: Vec<String>) {
        let mut files: Vec<String> = Vec::new();
        files.push(String::from_str("IP2LOCATION-LITE-DB11.MMDB"));
        assert(string_views(files@) =~= seq!["IP2LOCATION-LITE-DB11.MMDB"@]);
        files
    }

    open spec fn spec_fields(&self) -> Seq<Seq<char>> {
        seq![
                "ip"@,
                "country_code"@,
                "country_name"@,
                "region"@,
                "city"@,
                "latitude"@,
                "longitude"@,
            ]
    }

    fn available_fields(&self) -> (r: Vec<TemplateField>) {
        let mut fields: Vec<TemplateField> = Vec::new();
        fields.push(template_field("ip", "The IP address itself", "93.184.216.34"));
        fields.push(template_field("country_code", "Country code", "US"));
        fields.push(template_field("country_name", "Country name", "United States of America"));
        fields.push(template_field("region", "Region/State name", "California"));
        fields.push(template_field("city", "City name", "Los Angeles"));
        fields.push(template_field("latitude", "Latitude coordinate", "34.0544"));
        fields.push(template_field("longitude", "Longitude coordinate", "-118.2441"));
        assert(field_names_of(fields@) =~= seq![
            "ip"@,
            "country_code"@,
            "country_name"@,
            "region"@,
            "city"@,
            "latitude"@,
            "longitude"@,
        ]);
        fields
    }

    fn is_initialized(&self) -> (r: bool) {
        self.state.is_initialized()
    }

    open spec fn file_count(&self) -> usize {
        1
    }

    proof fn lemma_no_file_beyond_count(&self, index: usize) {
    }

    fn database_count(&self) -> (r: usize) {
        1
    }

    open spec fn wanted_file(&self, index: usize) -> Option<Seq<char>> {
        if index == 0 && !self.state().spec_initialized() {
            Some("IP2LOCATION-LITE-DB11.MMDB"@)
        } else {
            None
        }
    }

    fn database_file(&self, index: usize) -> (r: Option<String>) {
        if self.state.wants(index) {
            Some(String::from_str("IP2LOCATION-LITE-DB11.MMDB"))
        } else {
            None
        }
    }

    /// The database with index 0 is taken, until the provider is
    /// initialized.
    open spec fn with_database(&self, index: usize, database: Database, after: Self) -> bool {
        &&& after.name_text() == self.name_text()
        &&& after.state().spec_initialized() == self.state().spec_initialized()
        &&& after.state().spec_db() == (if index == 0 && !self.state().spec_initialized() {
            Some(database)
        } else {
            self.state().spec_db()
        })
    }

    open spec fn holds_database(&self) -> bool {
        self.state().spec_db() is Some
    }

    open spec fn made_ready(&self, after: Self) -> bool {
        &&& after.state().spec_initialized()
        &&& after.name_text() == self.name_text()
        &&& after.state().spec_db() == self.state().spec_db()
    }

    fn attach(&mut self, index: usize, database: Database) {
        self.state.attach(index, database);
    }

    fn finish_initialize(&mut self, path: &str) -> (r: Result<(), Error>) {
        self.state.finish(path)
    }

    fn lookup(&self, address: &IpAddress, literal: &str, template: &Template) -> (r: String) {
        let table = literal_fields(literal);
        apply_template(template, &table)
    }

    fn write_lookup(
        &self,
        out: &mut Vec<u8>,
        address: &IpAddress,
        literal: &str,
        template: &Template,
    ) {
        let decoration = self.lookup(address, literal, template);
        out.extend_from_slice(decoration.as_str().as_bytes());
    }

    fn has_asn(&self, address: &IpAddress) -> (r: bool) {
        false
    }
}

/// The kinds of what a record of the IPinfo provider holds: texts only.
pub open spec fn ipinfo_kinds() -> Seq<Kind> {
    seq![Kind::Text, Kind::Text, Kind::Text, Kind::Text]
}

/// Where a record of the IPinfo provider holds the country code, the
/// country name, the autonomous system and its name.
pub open spec fn ipinfo_paths() -> Seq<Seq<Seq<char>>> {
    seq![seq!["country"@], seq!["country_name"@], seq!["asn"@], seq!["asn_name"@]]
}

/// The provider for IPinfo databases.
#[derive(Debug)]
pub struct IPinfoProvider {
    name: String,
    state: SingleDatabase,
}

impl IPinfoProvider {
    /// The database of the provider, and whether it is initialized.
    pub closed spec fn state(&self) -> SingleDatabase {
        self.state
    }

    /// The name of the provider.
    pub closed spec fn name_text(&self) -> Seq<char> {
        self.name@
    }

    /// The texts that a lookup finds for an address.
    pub open spec fn found(&self, address: Seq<u8>) -> Option<Seq<Option<Seq<char>>>> {
        match self.state().bytes() {
            Some(bytes) => values_in(bytes, address, ipinfo_paths(), ipinfo_kinds()),
            None => None,
        }
    }

    /// A provider without database.
    pub fn new() -> (r: IPinfoProvider)
        ensures
            r.name_text() == "IPinfo"@,
            !r.state().spec_initialized(),
            r.state().spec_db() is None,
    {
        IPinfoProvider { name: String::from_str("IPinfo"), state: SingleDatabase::new() }
    }

    /// Looks the texts of an address up.
    fn find(&self, address: &IpAddress) -> (r: Option<Vec<Option<String>>>)
        ensures
            fields_view(r) == self.found(address_bytes(*address)),
    {
        match self.state.database() {
            Some(db) => {
                let mut paths: Vec<Vec<&'static str>> = Vec::new();
                paths.push(path1("country"));
                paths.push(path1("country_name"));
                paths.push(path1("asn"));
                paths.push(path1("asn_name"));
                assert(path_texts(paths@) =~= ipinfo_paths());
                let mut kinds: Vec<Kind> = Vec::new();
                kinds.push(Kind::Text);
                kinds.push(Kind::Text);
                kinds.push(Kind::Text);
                kinds.push(Kind::Text);
                assert(kinds@ =~= ipinfo_kinds());
                lookup_values(db, address, &paths, &kinds)
            },
            None => None,
        }
    }
}

impl Default for IPinfoProvider {
    fn default() -> (r: Self)
        ensures
            r.name_text() == "IPinfo"@,
            !r.state().spec_initialized(),
    {
        IPinfoProvider::new()
    }
}

impl MmdbProvider for IPinfoProvider {
    open spec fn spec_name(&self) -> Seq<char> {
        self.name_text()
    }

    open spec fn spec_default_path(&self) -> Seq<char> {
        "/usr/share/IPinfo"@
    }

    open spec fn spec_required_files(&self) -> Seq<Seq<char>> {
        seq!["ip_country_asn.mmdb"@]
    }

    open spec fn ready(&self) -> bool {
        self.state().spec_initialized()
    }

    open spec fn decoration(&self, address: Seq<u8>, literal: Seq<char>, template: Seq<PartView>) -> Seq<
        char,
    > {
        substitute(
            template,
            table_values(ipinfo_table(literal, self.found(address)), field_names(template)),
        )
    }

    open spec fn routable(&self, address: Seq<u8>) -> bool {
        found_at(self.found(address), 2) is Some
    }

    fn name(&self) -> (r: String) {
        self.name.clone()
    }

    fn default_path(&self) -> (r: String) {
        String::from_str("/usr/share/IPinfo")
    }

    fn required_files(&self) -> (r: Vec<String>) {
        let mut files: Vec<String> = Vec::new();
        files.push(String::from_str("ip_country_asn.mmdb"));
        assert(string_views(files@) =~= seq!["ip_country_asn.mmdb"@]);
        files
    }

    open spec fn spec_fields(&self) -> Seq<Seq<char>> {
        seq!["ip"@, "country"@, "country_name"@, "asn"@, "asn_name"@]
    }

    fn available_fields(&self) -> (r: Vec<TemplateField>) {
        let mut fields: Vec<TemplateField> = Vec::new();
        fields.push(template_field("ip", "The IP address itself", "93.184.216.34"));
        fields.push(template_field("country", "Country code", "US"));
        fields.push(template_field("country_name", "Country name", "United States"));
        fields.push(template_field("asn", "ASN number", "AS15133"));
        fields.push(
            template_field("asn_name", "ASN organization name", "MCI Communications Services"),
        );
        assert(field_names_of(fields@) =~= seq![
            "ip"@,
            "country"@,
            "country_name"@,
            "asn"@,
            "asn_name"@,
        ]);
        fields
    }

    fn is_initialized(&self) -> (r: bool) {
        self.state.is_initialized()
    }

    open spec fn file_count(&self) -> usize {
        1
    }

    proof fn lemma_no_file_beyond_count(&self, index: usize) {
    }

    fn database_count(&self) -> (r: usize) {
        1
    }

    open spec fn wanted_file(&self, index: usize) -> Option<Seq<char>> {
        if index == 0 && !self.state().spec_initialized() {
            Some("ip_country_asn.mmdb"@)
        } else {
            None
        }
    }

    fn database_file(&self, index: usize) -> (r: Option<String>) {
        if self.state.wants(index) {
            Some(String::from_str("ip_country_asn.mmdb"))
        } else {
            None
        }
    }

    /// The database with index 0 is taken, until the provider is
    /// initialized.
    open spec fn with_database(&self, index: usize, database: Database, after: Self) -> bool {
        &&& after.name_text() == self.name_text()
        &&& after.state().spec_initialized() == self.state().spec_initialized()
        &&& after.state().spec_db() == (if index == 0 && !self.state().spec_initialized() {
            Some(database)
        } else {
            self.state().spec_db()
        })
    }

    open spec fn holds_database(&self) -> bool {
        self.state().spec_db() is Some
    }

    open spec fn made_ready(&self, after: Self) -> bool {
        &&& after.state().spec_initialized()
        &&& after.name_text() == self.name_text()
        &&& after.state().spec_db() == self.state().spec_db()
    }

    fn attach(&mut self, index: usize, database: Database) {
        self.state.attach(index, database);
    }

    fn finish_initialize(&mut self, path: &str) -> (r: Result<(), Error>) {
        self.state.finish(path)
    }

    fn lookup(&self, address: &IpAddress, literal: &str, template: &Template) -> (r: String) {
        let found = self.find(address);
        let table = ipinfo_fields(literal, &found);
        apply_template(template, &table)
    }

    fn write_lookup(
        &self,
        out: &mut Vec<u8>,
        address: &IpAddress,
        literal: &str,
        template: &Template,
    ) {
        let decoration = self.lookup(address, literal, template);
        out.extend_from_slice(decoration.as_str().as_bytes());
    }

    fn has_asn(&self, address: &IpAddress) -> (r: bool) {
        match self.find(address) {
            Some(found) => found.len() > 2 && found[2].is_some(),
            None => false,
        }
    }
}

/// Copies a list of strings.
pub fn clone_strings(v: &Vec<String>) -> (r: Vec<String>)
    ensures
        string_views(r@) == string_views(v@),
{
    let mut out: Vec<String> = Vec::new();
    let mut i: usize = 0;
    while i < v.len()
        invariant
            0 <= i <= v@.len(),
            out@.len() == i,
            forall|j: int| 0 <= j < i ==> (#[trigger] out@[j])@ == v@[j]@,
        decreases v@.len() - i,
    {
        out.push(v[i].clone());
        i += 1;
    }
    assert(string_views(out@) =~= string_views(v@));
    out
}

/// A provider that is described by data: its name, its directory, its
/// files and its fields. It uses the first of its files, and knows the
/// literal alone.
#[derive(Debug)]
pub struct CustomProvider {
    name: String,
    default_path: String,
    required_files: Vec<String>,
    fields: Vec<TemplateField>,
    state: SingleDatabase,
}

impl CustomProvider {
    /// The database of the provider, and whether it is initialized.
    pub closed spec fn state(&self) -> SingleDatabase {
        self.state
    }

    /// The name of the provider.
    pub closed spec fn name_text(&self) -> Seq<char> {
        self.name@
    }

    /// The directory in which the database is looked for by default.
    pub closed spec fn path_text(&self) -> Seq<char> {
        self.default_path@
    }

    /// The files that the provider can use.
    pub closed spec fn file_texts(&self) -> Seq<Seq<char>> {
        string_views(self.required_files@)
    }

    /// The names of the fields of the provider.
    pub closed spec fn field_texts(&self) -> Seq<Seq<char>> {
        field_names_of(self.fields@)
    }

    /// A provider with the given description, as yet without database.
    pub fn new(
        name: &str,
        default_path: &str,
        required_files: Vec<String>,
        fields: Vec<TemplateField>,
    ) -> (r: CustomProvider)
        ensures
            r.name_text() == name@,
            r.path_text() == default_path@,
            r.file_texts() == string_views(required_files@),
            r.field_texts() == field_names_of(fields@),
            !r.state().spec_initialized(),
            r.state().spec_db() is None,
    {
        CustomProvider {
            name: String::from_str(name),
            default_path: String::from_str(default_path),
            required_files,
            fields,
            state: SingleDatabase::new(),
        }
    }
}

impl MmdbProvider for CustomProvider {
    open spec fn spec_name(&self) -> Seq<char> {
        self.name_text()
    }

    open spec fn spec_default_path(&self) -> Seq<char> {
        self.path_text()
    }

    open spec fn spec_required_files(&self) -> Seq<Seq<char>> {
        self.file_texts()
    }

    open spec fn ready(&self) -> bool {
        self.state().spec_initialized()
    }

    open spec fn decoration(&self, address: Seq<u8>, literal: Seq<char>, template: Seq<PartView>) -> Seq<
        char,
    > {
        substitute(template, table_values(literal_table(literal), field_names(template)))
    }

    open spec fn routable(&self, address: Seq<u8>) -> bool {
        false
    }

    fn name(&self) -> (r: String) {
        self.name.clone()
    }

    fn default_path(&self) -> (r: String) {
        self.default_path.clone()
    }

    fn required_files(&self) -> (r: Vec<String>) {
        clone_strings(&self.required_files)
    }

    open spec fn spec_fields(&self) -> Seq<Seq<char>> {
        self.field_texts()
    }

    fn available_fields(&self) -> (r: Vec<TemplateField>) {
        let mut out: Vec<TemplateField> = Vec::new();
        let mut i: usize = 0;
        while i < self.fields.len()
            invariant
                0 <= i <= self.fields@.len(),
                out@.len() == i,
                forall|j: int| 0 <= j < i ==> (#[trigger] out@[j]).name@ == self.fields@[j].name@,
            decreases self.fields@.len() - i,
        {
            let field = &self.fields[i];
            out.push(
                template_field(
                    field.name.as_str(),
                    field.description.as_str(),
                    field.example.as_str(),
                ),
            );
            i += 1;
        }
        assert(field_names_of(out@) =~= field_names_of(self.fields@));
        out
    }

    fn is_initialized(&self) -> (r: bool) {
        self.state.is_initialized()
    }

    open spec fn file_count(&self) -> usize {
        1
    }

    proof fn lemma_no_file_beyond_count(&self, index: usize) {
    }

    fn database_count(&self) -> (r: usize) {
        1
    }

    open spec fn wanted_file(&self, index: usize) -> Option<Seq<char>> {
        if index == 0 && !self.state().spec_initialized() && self.file_texts().len() > 0 {
            Some(self.file_texts()[0])
        } else {
            None
        }
    }

    fn database_file(&self, index: usize) -> (r: Option<String>) {
        if self.state.wants(index) && self.required_files.len() > 0 {
            Some(self.required_files[0].clone())
        } else {
            None
        }
    }

    /// The database with index 0 is taken, until the provider is
    /// initialized.
    open spec fn with_database(&self, index: usize, database: Database, after: Self) -> bool {
        &&& after.name_text() == self.name_text()
        &&& after.path_text() == self.path_text()
        &&& after.file_texts() == self.file_texts()
        &&& after.field_texts() == self.field_texts()
        &&& after.state().spec_initialized() == self.state().spec_initialized()
        &&& after.state().spec_db() == (if index == 0 && !self.state().spec_initialized() {
            Some(database)
        } else {
            self.state().spec_db()
        })
    }

    open spec fn holds_database(&self) -> bool {
        self.state().spec_db() is Some
    }

    open spec fn made_ready(&self, after: Self) -> bool {
        &&& after.state().spec_initialized()
        &&& after.name_text() == self.name_text()
        &&& after.path_text() == self.path_text()
        &&& after.file_texts() == self.file_texts()
        &&& after.field_texts() == self.field_texts()
        &&& after.state().spec_db() == self.state().spec_db()
    }

    fn attach(&mut self, index: usize, database: Database) {
        self.state.attach(index, database);
    }

    fn finish_initialize(&mut self, path: &str) -> (r: Result<(), Error>) {
        self.state.finish(path)
    }

    fn lookup(&self, address: &IpAddress, literal: &str, template: &Template) -> (r: String) {
        let table = literal_fields(literal);
        apply_template(template, &table)
    }

    fn write_lookup(
        &self,
        out: &mut Vec<u8>,
        address: &IpAddress,
        literal: &str,
        template: &Template,
    ) {
        let decoration = self.lookup(address, literal, template);
        out.extend_from_slice(decoration.as_str().as_bytes());
    }

    fn has_asn(&self, address: &IpAddress) -> (r: bool) {
        false
    }
}

/// Any of the providers of the library.
#[derive(Debug)]
pub enum Provider {
    MaxMind(MaxMindProvider),
    IP2Location(IP2LocationProvider),
    IPinfo(IPinfoProvider),
    Custom(CustomProvider),
}

impl MmdbProvider for Provider {
    open spec fn spec_name(&self) -> Seq<char> {
        match self {
            Provider::MaxMind(p) => p.spec_name(),
            Provider::IP2Location(p) => p.spec_name(),
            Provider::IPinfo(p) => p.spec_name(),
            Provider::Custom(p) => p.spec_name(),
        }
    }

    open spec fn spec_default_path(&self) -> Seq<char> {
        match self {
            Provider::MaxMind(p) => p.spec_default_path(),
            Provider::IP2Location(p) => p.spec_default_path(),
            Provider::IPinfo(p) => p.spec_default_path(),
            Provider::Custom(p) => p.spec_default_path(),
        }
    }

    open spec fn spec_required_files(&self) -> Seq<Seq<char>> {
        match self {
            Provider::MaxMind(p) => p.spec_required_files(),
            Provider::IP2Location(p) => p.spec_required_files(),
            Provider::IPinfo(p) => p.spec_required_files(),
            Provider::Custom(p) => p.spec_required_files(),
        }
    }

    open spec fn ready(&self) -> bool {
        match self {
            Provider::MaxMind(p) => p.ready(),
            Provider::IP2Location(p) => p.ready(),
            Provider::IPinfo(p) => p.ready(),
            Provider::Custom(p) => p.ready(),
        }
    }

    open spec fn decoration(&self, address: Seq<u8>, literal: Seq<char>, template: Seq<PartView>) -> Seq<
        char,
    > {
        match self {
            Provider::MaxMind(p) => p.decoration(address, literal, template),
            Provider::IP2Location(p) => p.decoration(address, literal, template),
            Provider::IPinfo(p) => p.decoration(address, literal, template),
            Provider::Custom(p) => p.decoration(address, literal, template),
        }
    }

    open spec fn routable(&self, address: Seq<u8>) -> bool {
        match self {
            Provider::MaxMind(p) => p.routable(address),
            Provider::IP2Location(p) => p.routable(address),
            Provider::IPinfo(p) => p.routable(address),
            Provider::Custom(p) => p.routable(address),
        }
    }

    fn name(&self) -> (r: String) {
        match self {
            Provider::MaxMind(p) => p.name(),
            Provider::IP2Location(p) => p.name(),
            Provider::IPinfo(p) => p.name(),
            Provider::Custom(p) => p.name(),
        }
    }

    fn default_path(&self) -> (r: String) {
        match self {
            Provider::MaxMind(p) => p.default_path(),
            Provider::IP2Location(p) => p.default_path(),
            Provider::IPinfo(p) => p.default_path(),
            Provider::Custom(p) => p.default_path(),
        }
    }

    fn required_files(&self) -> (r: Vec<String>) {
        match self {
            Provider::MaxMind(p) => p.required_files(),
            Provider::IP2Location(p) => p.required_files(),
            Provider::IPinfo(p) => p.required_files(),
            Provider::Custom(p) => p.required_files(),
        }
    }

    open spec fn spec_fields(&self) -> Seq<Seq<char>> {
        match self {
            Provider::MaxMind(p) => p.spec_fields(),
            Provider::IP2Location(p) => p.spec_fields(),
            Provider::IPinfo(p) => p.spec_fields(),
            Provider::Custom(p) => p.spec_fields(),
        }
    }

    fn available_fields(&self) -> (r: Vec<TemplateField>) {
        match self {
            Provider::MaxMind(p) => p.available_fields(),
            Provider::IP2Location(p) => p.available_fields(),
            Provider::IPinfo(p) => p.available_fields(),
            Provider::Custom(p) => p.available_fields(),
        }
    }

    fn is_initialized(&self) -> (r: bool) {
        match self {
            Provider::MaxMind(p) => p.is_initialized(),
            Provider::IP2Location(p) => p.is_initialized(),
            Provider::IPinfo(p) => p.is_initialized(),
            Provider::Custom(p) => p.is_initialized(),
        }
    }

    open spec fn wanted_file(&self, index: usize) -> Option<Seq<char>> {
        match self {
            Provider::MaxMind(p) => p.wanted_file(index),
            Provider::IP2Location(p) => p.wanted_file(index),
            Provider::IPinfo(p) => p.wanted_file(index),
            Provider::Custom(p) => p.wanted_file(index),
        }
    }

    open spec fn file_count(&self) -> usize {
        match self {
            Provider::MaxMind(p) => p.file_count(),
            Provider::IP2Location(p) => p.file_count(),
            Provider::IPinfo(p) => p.file_count(),
            Provider::Custom(p) => p.file_count(),
        }
    }

    proof fn lemma_no_file_beyond_count(&self, index: usize) {
        match self {
            Provider::MaxMind(p) => p.lemma_no_file_beyond_count(index),
            Provider::IP2Location(p) => p.lemma_no_file_beyond_count(index),
            Provider::IPinfo(p) => p.lemma_no_file_beyond_count(index),
            Provider::Custom(p) => p.lemma_no_file_beyond_count(index),
        }
    }

    /// The provider inside takes the database, and stays of its kind.
    open spec fn with_database(&self, index: usize, database: Database, after: Self) -> bool {
        match (*self, after) {
            (Provider::MaxMind(p), Provider::MaxMind(q)) => p.with_database(index, database, q),
            (Provider::IP2Location(p), Provider::IP2Location(q)) => p.with_database(
                index,
                database,
                q,
            ),
            (Provider::IPinfo(p), Provider::IPinfo(q)) => p.with_database(index, database, q),
            (Provider::Custom(p), Provider::Custom(q)) => p.with_database(index, database, q),
            _ => false,
        }
    }

    open spec fn holds_database(&self) -> bool {
        match self {
            Provider::MaxMind(p) => p.holds_database(),
            Provider::IP2Location(p) => p.holds_database(),
            Provider::IPinfo(p) => p.holds_database(),
            Provider::Custom(p) => p.holds_database(),
        }
    }

    /// The provider inside is made ready, and stays of its kind.
    open spec fn made_ready(&self, after: Self) -> bool {
        match (*self, after) {
            (Provider::MaxMind(p), Provider::MaxMind(q)) => p.made_ready(q),
            (Provider::IP2Location(p), Provider::IP2Location(q)) => p.made_ready(q),
            (Provider::IPinfo(p), Provider::IPinfo(q)) => p.made_ready(q),
            (Provider::Custom(p), Provider::Custom(q)) => p.made_ready(q),
            _ => false,
        }
    }

    fn database_count(&self) -> (r: usize) {
        match self {
            Provider::MaxMind(p) => p.database_count(),
            Provider::IP2Location(p) => p.database_count(),
            Provider::IPinfo(p) => p.database_count(),
            Provider::Custom(p) => p.database_count(),
        }
    }

    fn database_file(&self, index: usize) -> (r: Option<String>) {
        match self {
            Provider::MaxMind(p) => p.database_file(index),
            Provider::IP2Location(p) => p.database_file(index),
            Provider::IPinfo(p) => p.database_file(index),
            Provider::Custom(p) => p.database_file(index),
        }
    }

    fn attach(&mut self, index: usize, database: Database) {
        match self {
            Provider::MaxMind(p) => p.attach(index, database),
            Provider::IP2Location(p) => p.attach(index, database),
            Provider::IPinfo(p) => p.attach(index, database),
            Provider::Custom(p) => p.attach(index, database),
        }
    }

    fn finish_initialize(&mut self, path: &str) -> (r: Result<(), Error>) {
        match self {
            Provider::MaxMind(p) => p.finish_initialize(path),
            Provider::IP2Location(p) => p.finish_initialize(path),
            Provider::IPinfo(p) => p.finish_initialize(path),
            Provider::Custom(p) => p.finish_initialize(path),
        }
    }

    fn lookup(&self, address: &IpAddress, literal: &str, template: &Template) -> (r: String) {
        match self {
            Provider::MaxMind(p) => p.lookup(address, literal, template),
            Provider::IP2Location(p) => p.lookup(address, literal, template),
            Provider::IPinfo(p) => p.lookup(address, literal, template),
            Provider::Custom(p) => p.lookup(address, literal, template),
        }
    }

    fn write_lookup(
        &self,
        out: &mut Vec<u8>,
        address: &IpAddress,
        literal: &str,
        template: &Template,
    ) {
        match self {
            Provider::MaxMind(p) => p.write_lookup(out, address, literal, template),
            Provider::IP2Location(p) => p.write_lookup(out, address, literal, template),
            Provider::IPinfo(p) => p.write_lookup(out, address, literal, template),
            Provider::Custom(p) => p.write_lookup(out, address, literal, template),
        }
    }

    fn has_asn(&self, address: &IpAddress) -> (r: bool) {
        match self {
            Provider::MaxMind(p) => p.has_asn(address),
            Provider::IP2Location(p) => p.has_asn(address),
            Provider::IPinfo(p) => p.has_asn(address),
            Provider::Custom(p) => p.has_asn(address),
        }
    }
}

} // verus!
