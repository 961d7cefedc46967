//! The registry of providers: providers by name, one of which is active.

use crate::address::{address_bytes, IpAddress};
use crate::error::Error;
use crate::mmdb::{MmdbProvider, TemplateField};
use crate::providers::{IP2LocationProvider, IPinfoProvider, MaxMindProvider, Provider};
use crate::template::Template;
use crate::text::string_views;
use vstd::prelude::*;

verus! {

/// Providers by name, and the name of the active one.
#[derive(Debug)]
pub struct ProviderRegistry<P: MmdbProvider> {
    providers: Vec<(String, P)>,
    active_provider: Option<String>,
}

/// The lines that list the files of a provider.
pub open spec fn files_text(files: Seq<Seq<char>>) -> Seq<char>
    decreases files.len(),
{
    if files.len() == 0 {
        Seq::<char>::empty()
    } else {
        files_text(files.drop_last()) + "    - "@ + files.last() + "\n"@
    }
}

/// The line that says whether the files of a provider were found.
pub open spec fn status_text(installed: bool) -> Seq<char> {
    if installed {
        "  Status: \x1b[32m\u{2713}\x1b[0m Installed (files found at default location)\n"@
    } else {
        "  Status: \x1b[31m\u{2717}\x1b[0m Not installed or custom path required\n"@
    }
}

/// What is reported of one provider: the name that it is registered
/// under, its own name, its directory, its files, and whether they were
/// found.
pub open spec fn provider_text<P: MmdbProvider>(key: Seq<char>, provider: P, installed: bool) -> Seq<
    char,
> {
    "Provider: "@ + key + "\n"@ + "  Name: "@ + provider.spec_name() + "\n"@ + "  Default Path: "@
        + provider.spec_default_path() + "\n"@ + "  Required Files:\n"@ + files_text(
        provider.spec_required_files(),
    ) + status_text(installed) + "\n"@
}

/// Whether the files of the provider at a position were found: as the
/// flag at that position says, and not where there is no such flag.
pub open spec fn flag_at(installed: Seq<bool>, i: int) -> bool {
    0 <= i < installed.len() && installed[i]
}

/// The head of the report: what the environment says of the database
/// directory.
pub open spec fn report_head(environment: Seq<char>) -> Seq<char> {
    "Environment Status:\n  "@ + environment + "\n\n"@ + "Available MMDB Providers:\n\n"@
}

/// The names under which entries stand.
pub open spec fn entry_names<P>(entries: Seq<(String, P)>) -> Seq<Seq<char>> {
    Seq::new(entries.len(), |i: int| entries[i].0@)
}

impl<P: MmdbProvider> ProviderRegistry<P> {
    /// The names of the registered providers, in the order in which they
    /// were first registered.
    pub closed spec fn names(&self) -> Seq<Seq<char>> {
        entry_names(self.providers@)
    }

    /// The provider that stands at a position.
    pub closed spec fn provider_at(&self, i: int) -> P {
        self.providers@[i].1
    }

    /// The name of the active provider, if one was chosen.
    pub closed spec fn active(&self) -> Option<Seq<char>> {
        match self.active_provider {
            Some(name) => Some(name@),
            None => None,
        }
    }

    /// Whether a provider is registered under the name.
    pub open spec fn knows(&self, name: Seq<char>) -> bool {
        self.names().contains(name)
    }

    /// The position of the provider with the given name.
    pub open spec fn position(&self, name: Seq<char>) -> int {
        self.names().index_of(name)
    }

    /// The position of the active provider, if one was chosen and is
    /// registered.
    pub open spec fn active_position(&self) -> Option<int> {
        match self.active() {
            Some(name) => if self.knows(name) {
                Some(self.position(name))
            } else {
                None
            },
            None => None,
        }
    }

    /// What holds of every registry that was made by [`ProviderRegistry::new`]
    /// or [`ProviderRegistry::with_defaults`] and changed by its methods: no
    /// two providers stand under one name.
    pub open spec fn well_formed(&self) -> bool {
        self.names().no_duplicates()
    }

    /// A registry without providers.
    pub fn new() -> (r: ProviderRegistry<P>)
        ensures
            r.names() == Seq::<Seq<char>>::empty(),
            r.active() is None,
            r.well_formed(),
    {
        let r = ProviderRegistry { providers: Vec::new(), active_provider: None };
        assert(entry_names(r.providers@) =~= Seq::<Seq<char>>::empty());
        r
    }

    /// Finds the position of a name.
    fn find(&self, name: &str) -> (r: Option<usize>)
        requires
            self.well_formed(),
        ensures
            match r {
                Some(i) => i < self.names().len() && self.names()[i as int] == name@
                    && self.knows(name@) && self.position(name@) == i,
                None => !self.knows(name@),
            },
    {
        let key = String::from_str(name);
        let mut i: usize = 0;
        while i < self.providers.len()
            invariant
                0 <= i <= self.providers@.len(),
                key@ == name@,
                entry_names(self.providers@).no_duplicates(),
                forall|j: int| 0 <= j < i ==> entry_names(self.providers@)[j] != name@,
            decreases self.providers@.len() - i,
        {
            if self.providers[i].0 == key {
                proof {
                    let names = entry_names(self.providers@);
                    assert(names[i as int] == name@);
                    assert(names.contains(name@));
                    let k = names.index_of(name@);
                    assert(names[k] == name@);
                }
                return Some(i);
            }
            i += 1;
        }
        None
    }

    /// Registers a provider under a name. A provider that stood under the
    /// name before gives way to it.
    pub fn register(&mut self, name: String, provider: P)
        requires
            old(self).well_formed(),
        ensures
            final(self).well_formed(),
            final(self).active() == old(self).active(),
            final(self).knows(name@),
            final(self).provider_at(final(self).position(name@)) == provider,
            old(self).knows(name@) ==> final(self).names() == old(self).names(),
            !old(self).knows(name@) ==> final(self).names() == old(self).names().push(name@),
            forall|i: int|
                0 <= i < old(self).names().len() && old(self).names()[i] != name@
                    ==> final(self).provider_at(i) == old(self).provider_at(i),
    {
        let ghost before = entry_names(self.providers@);
        let ghost entries = self.providers@;
        let ghost entry = (name, provider);
        match self.find(name.as_str()) {
            Some(i) => {
                self.providers[i] = (name, provider);
                proof {
                    assert(self.providers@ == entries.update(i as int, entry));
                    assert(entry_names(self.providers@) =~= before);
                }
            },
            None => {
                self.providers.push((name, provider));
                proof {
                    assert(self.providers@ == entries.push(entry));
                    let names = entry_names(self.providers@);
                    assert(names.len() == before.len() + 1);
                    assert forall|j: int| 0 <= j < names.len() implies names[j] == before.push(
                        name@,
                    )[j] by {
                        if j < before.len() {
                            assert(self.providers@[j] == entries[j]);
                        }
                    }
                    assert(names =~= before.push(name@));
                    assert(names[before.len() as int] == name@);
                    assert(names.contains(name@));
                    let k = names.index_of(name@);
                    assert(names[k] == name@);
                    assert(k == before.len()) by {
                        if k < before.len() {
                            assert(before[k] == name@);
                            assert(before.contains(name@));
                        }
                    }
                }
            },
        }
    }

    /// The names of the registered providers.
    pub fn available_providers(&self) -> (r: Vec<String>)
        ensures
            string_views(r@) == self.names(),
    {
        let mut names: Vec<String> = Vec::new();
        let mut i: usize = 0;
        while i < self.providers.len()
            invariant
                0 <= i <= self.providers@.len(),
                names@.len() == i,
                forall|j: int| 0 <= j < i ==> (#[trigger] names@[j])@ == self.providers@[j].0@,
            decreases self.providers@.len() - i,
        {
            names.push(self.providers[i].0.clone());
            i += 1;
        }
        assert(string_views(names@) =~= entry_names(self.providers@));
        names
    }

    /// Makes the provider with the given name the active one. It fails
    /// where no provider stands under the name.
    pub fn set_active_provider(&mut self, name: &str) -> (r: Result<(), Error>)
        requires
            old(self).well_formed(),
        ensures
            final(self).well_formed(),
            final(self).names() == old(self).names(),
            forall|i: int| final(self).provider_at(i) == old(self).provider_at(i),
            old(self).knows(name@) ==> r is Ok && final(self).active() == Some(name@),
            !old(self).knows(name@) ==> (r matches Err(Error::UnknownProvider { name: n }) && n@
                == name@) && final(self).active() == old(self).active(),
    {
        match self.find(name) {
            Some(_) => {
                self.active_provider = Some(String::from_str(name));
                Ok(())
            },
            None => Err(Error::UnknownProvider { name: String::from_str(name) }),
        }
    }

    /// The provider that stands under a name, if there is one.
    pub fn get_provider(&self, name: &str) -> (r: Option<&P>)
        requires
            self.well_formed(),
        ensures
            match r {
                Some(p) => self.knows(name@) && *p == self.provider_at(self.position(name@)),
                None => !self.knows(name@),
            },
    {
        match self.find(name) {
            Some(i) => {
                let entry = &self.providers[i];
                Some(&entry.1)
            },
            None => None,
        }
    }

    /// Finds the position of the active provider.
    fn find_active(&self) -> (r: Result<usize, Error>)
        requires
            self.well_formed(),
        ensures
            match r {
                Ok(i) => self.active_position() == Some(i as int) && i < self.names().len(),
                Err(e) => self.active_position() is None && e is UnknownProvider,
            },
    {
        match &self.active_provider {
            Some(name) => match self.find(name.as_str()) {
                Some(i) => Ok(i),
                None => Err(Error::UnknownProvider { name: name.clone() }),
            },
            None => Err(Error::UnknownProvider { name: String::from_str("") }),
        }
    }

    /// The active provider. It fails where none was chosen.
    pub fn get_active_provider(&self) -> (r: Result<&P, Error>)
        requires
            self.well_formed(),
        ensures
            match r {
                Ok(p) => self.active_position() matches Some(i) && *p == self.provider_at(i),
                Err(e) => self.active_position() is None && e is UnknownProvider,
            },
    {
        match self.find_active() {
            Ok(i) => {
                let entry = &self.providers[i];
                Ok(&entry.1)
            },
            Err(e) => Err(e),
        }
    }

    /// Hands the active provider to `f`, once, and returns what `f` makes
    /// of it: the result is one that `f` gives for that provider, which is
    /// afterwards as `f` left it. It fails, without a call of `f`, where no
    /// provider is active. The names and the other providers stay as they
    /// are.
    pub fn with_active_provider_mut<T, F: FnOnce(&mut P) -> Result<T, Error>>(
        &mut self,
        f: F,
    ) -> (r: Result<T, Error>)
        requires
            old(self).well_formed(),
            forall|p: &mut P| call_requires(f, (p,)),
        ensures
            final(self).well_formed(),
            final(self).names() == old(self).names(),
            final(self).active() == old(self).active(),
            old(self).active_position() is None ==> (r matches Err(e) && e is UnknownProvider),
            old(self).active_position() matches Some(i) ==> exists|p: &mut P|
                call_ensures(f, (p,), r) && mut_ref_current(p) == old(self).provider_at(i)
                    && mut_ref_future(p) == final(self).provider_at(i),
            forall|i: int|
                0 <= i < old(self).names().len() && old(self).active_position() != Some(i)
                    ==> final(self).provider_at(i) == old(self).provider_at(i),
    {
        let ghost before = entry_names(self.providers@);
        let i = match self.find_active() {
            Ok(i) => i,
            Err(e) => {
                return Err(e);
            },
        };
        let r = f(&mut self.providers[i].1);
        proof {
            assert(entry_names(self.providers@) =~= before);
        }
        r
    }

    /// Looks an address up with the active provider. It fails where no
    /// provider is active, or the active one is not initialized.
    pub fn lookup(&self, address: &IpAddress, literal: &str, template: &Template) -> (r: Result<
        String,
        Error,
    >)
        requires
            self.well_formed(),
        ensures
            match self.active_position() {
                Some(i) => if self.provider_at(i).ready() {
                    r matches Ok(s) && s@ == self.provider_at(i).decoration(
                        address_bytes(*address),
                        literal@,
                        template@,
                    )
                } else {
                    r matches Err(e) && e is ProviderNotInitialized
                },
                None => r matches Err(e) && e is UnknownProvider,
            },
    {
        let provider = match self.get_active_provider() {
            Ok(p) => p,
            Err(e) => {
                return Err(e);
            },
        };
        if !provider.is_initialized() {
            return Err(Error::ProviderNotInitialized { name: provider.name() });
        }
        Ok(provider.lookup(address, literal, template))
    }

    /// Tells whether the active provider knows an autonomous system of the
    /// address. Without an active provider nothing is known.
    pub fn has_asn(&self, address: &IpAddress) -> (r: bool)
        requires
            self.well_formed(),
        ensures
            r == match self.active_position() {
                Some(i) => self.provider_at(i).routable(address_bytes(*address)),
                None => false,
            },
    {
        match self.get_active_provider() {
            Ok(provider) => provider.has_asn(address),
            Err(_) => false,
        }
    }

    /// The fields that the active provider fills. It fails where no
    /// provider is active.
    pub fn available_fields(&self) -> (r: Result<Vec<TemplateField>, Error>)
        requires
            self.well_formed(),
        ensures
            match self.active_position() {
                Some(i) => r matches Ok(fields) && crate::mmdb::field_names_of(fields@)
                    == self.provider_at(i).spec_fields(),
                None => r matches Err(e) && e is UnknownProvider,
            },
    {
        match self.get_active_provider() {
            Ok(provider) => Ok(provider.available_fields()),
            Err(e) => Err(e),
        }
    }

    /// What is reported of the first `n` providers.
    pub open spec fn providers_text(&self, installed: Seq<bool>, n: int) -> Seq<char>
        decreases n,
    {
        if n <= 0 {
            Seq::<char>::empty()
        } else {
            self.providers_text(installed, n - 1) + provider_text(
                self.names()[n - 1],
                self.provider_at(n - 1),
                flag_at(installed, n - 1),
            )
        }
    }

    /// The report on the providers, as a text.
    pub open spec fn report(&self, environment: Seq<char>, installed: Seq<bool>) -> Seq<char> {
        report_head(environment) + self.providers_text(installed, self.names().len() as int)
    }

    /// Reports on every provider: the name that it is registered under,
    /// its own name, its directory and its files, and whether its files
    /// were found in its directory, as `installed` says for the provider at
    /// the same position. `environment` says what the environment holds
    /// for the database directory.
    pub fn print_db_info(&self, environment: &str, installed: &Vec<bool>) -> (r: String)
        ensures
            r@ == self.report(environment@, installed@),
    {
        let mut out = String::from_str("Environment Status:\n  ");
        out.append(environment);
        out.append("\n\n");
        out.append("Available MMDB Providers:\n\n");
        let ghost head = out@;
        assert(head == report_head(environment@));
        assert(head + Seq::<char>::empty() == head);
        let mut i: usize = 0;
        while i < self.providers.len()
            invariant
                0 <= i <= self.providers@.len(),
                head == report_head(environment@),
                out@ == head + self.providers_text(installed@, i as int),
            decreases self.providers@.len() - i,
        {
            let found = i < installed.len() && installed[i];
            let entry = &self.providers[i];
            let ghost done = self.providers_text(installed@, i as int);
            let piece = provider_report(entry.0.as_str(), &entry.1, found);
            out.append(piece.as_str());
            assert(out@ == head + (done + piece@));
            i += 1;
        }
        out
    }
}

/// Reports on one provider.
pub fn provider_report<P: MmdbProvider>(key: &str, provider: &P, installed: bool) -> (r: String)
    ensures
        r@ == provider_text(key@, *provider, installed),
{
    let mut out = String::from_str("Provider: ");
    out.append(key);
    out.append("\n");
    out.append("  Name: ");
    out.append(provider.name().as_str());
    out.append("\n");
    out.append("  Default Path: ");
    out.append(provider.default_path().as_str());
    out.append("\n");
    out.append("  Required Files:\n");
    let ghost start = out@;
    let files = provider.required_files();
    let ghost texts = string_views(files@);
    let mut i: usize = 0;
    assert(texts.take(0) == Seq::<Seq<char>>::empty());
    assert(start + Seq::<char>::empty() == start);
    while i < files.len()
        invariant
            0 <= i <= files@.len(),
            texts == string_views(files@),
            out@ == start + files_text(texts.take(i as int)),
        decreases files@.len() - i,
    {
        let ghost done = files_text(texts.take(i as int));
        proof {
            assert(texts.take(i + 1).drop_last() == texts.take(i as int));
            assert(texts.take(i + 1).last() == files@[i as int]@);
        }
        out.append("    - ");
        out.append(files[i].as_str());
        out.append("\n");
        assert(out@ == start + (done + "    - "@ + files@[i as int]@ + "\n"@));
        i += 1;
    }
    assert(texts.take(files@.len() as int) == texts);
    if installed {
        out.append(
            "  Status: \x1b[32m\u{2713}\x1b[0m Installed (files found at default location)\n",
        );
    } else {
        out.append("  Status: \x1b[31m\u{2717}\x1b[0m Not installed or custom path required\n");
    }
    out.append("\n");
    out
}

impl ProviderRegistry<Provider> {
    /// Whether the registry is as it is first made: the three providers of
    /// the library stand under the names `maxmind`, `ip2location` and
    /// `ipinfo`, each under its own name, without a database and not
    /// initialized, and the first of them is active.
    pub open spec fn fresh(&self) -> bool {
        &&& self.well_formed()
        &&& self.names() == seq!["maxmind"@, "ip2location"@, "ipinfo"@]
        &&& self.active() == Some("maxmind"@)
        &&& self.active_position() == Some(0int)
        &&& self.provider_at(0) is MaxMind
        &&& self.provider_at(1) is IP2Location
        &&& self.provider_at(2) is IPinfo
        &&& self.provider_at(0).spec_name() == "MaxMind GeoIP2"@
        &&& self.provider_at(1).spec_name() == "IP2Location"@
        &&& self.provider_at(2).spec_name() == "IPinfo"@
        &&& forall|k: int|
            0 <= k < 3 ==> !(#[trigger] self.provider_at(k)).ready() && !self.provider_at(
                k,
            ).holds_database()
    }

    /// A registry with the providers of the library under the names
    /// `maxmind`, `ip2location` and `ipinfo`, the first of them active.
    pub fn with_defaults() -> (r: ProviderRegistry<Provider>)
        ensures
            r.fresh(),
    {
        let mut providers: Vec<(String, Provider)> = Vec::new();
        providers.push((String::from_str("maxmind"), Provider::MaxMind(MaxMindProvider::new())));
        providers.push(
            (String::from_str("ip2location"), Provider::IP2Location(IP2LocationProvider::new())),
        );
        providers.push((String::from_str("ipinfo"), Provider::IPinfo(IPinfoProvider::new())));
        let registry = ProviderRegistry {
            providers,
            active_provider: Some(String::from_str("maxmind")),
        };
        proof {
            reveal_strlit("maxmind");
            reveal_strlit("ip2location");
            reveal_strlit("ipinfo");
            let names = entry_names(registry.providers@);
            assert(names =~= seq!["maxmind"@, "ip2location"@, "ipinfo"@]);
            assert("maxmind"@.len() == 7 && "ip2location"@.len() == 11 && "ipinfo"@.len() == 6);
            assert(names[0] != names[1] && names[0] != names[2] && names[1] != names[2]);
            assert(names.index_of("maxmind"@) == 0);
        }
        registry
    }
}

impl Default for ProviderRegistry<Provider> {
    fn default() -> (r: Self)
        ensures
            r.fresh(),
    {
        ProviderRegistry::with_defaults()
    }
}

} // verus!
