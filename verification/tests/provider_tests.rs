use geoipsed::{
    apply_template, maxmind_fields, CustomProvider, Database, Error, FieldTable,
    IP2LocationProvider, IPinfoProvider, IpAddress, Ipv4Address, MaxMindProvider, MmdbProvider,
    Provider, ProviderRegistry, Template, TemplateField,
};

const DEFAULT_TEMPLATE: &str = "<{ip}|AS{asnnum}_{asnorg}|{country_iso}|{city}>";

fn text(s: &str) -> Option<String> {
    Some(s.to_string())
}

fn address() -> IpAddress {
    IpAddress::V4(Ipv4Address::new(1, 2, 3, 4))
}

#[test]
fn fields_of_an_address_with_a_number_only() {
    let template = Template::compile(DEFAULT_TEMPLATE).unwrap();
    let asn = Some(vec![text("35908"), None]);
    let city = Some(vec![None, text("BT"), None, None, None, None, None]);
    let table = maxmind_fields("67.43.156.1", &asn, &city);
    assert_eq!(apply_template(&template, &table), "<67.43.156.1|AS35908_|BT|>");
}

#[test]
fn fields_with_spaces_are_written_with_underscores() {
    let template = Template::compile(DEFAULT_TEMPLATE).unwrap();
    let asn = Some(vec![text("721"), text("DoD Network Information Center")]);
    let city = Some(vec![
        text("NA"),
        text("US"),
        text("United States"),
        text("San Diego"),
        text("America/Los_Angeles"),
        text("32.7203"),
        text("-117.1552"),
    ]);
    let table = maxmind_fields("214.78.0.40", &asn, &city);
    assert_eq!(
        apply_template(&template, &table),
        "<214.78.0.40|AS721_DoD_Network_Information_Center|US|San_Diego>"
    );
    let all = Template::compile(
        "{continent} {country_full} {latitude} {longitude} {timezone}",
    )
    .unwrap();
    assert_eq!(
        apply_template(&all, &table),
        "NA United_States 32.7203 -117.1552 America/Los_Angeles"
    );
}

#[test]
fn fields_of_an_address_that_was_not_found() {
    let template = Template::compile(
        "<{ip}|AS{asnnum}_{asnorg}|{country_iso}|{city}|{latitude}|{longitude}|{timezone}|{continent}|{country_full}>",
    )
    .unwrap();
    let table = maxmind_fields("2001:480::52", &None, &None);
    assert_eq!(apply_template(&template, &table), "<2001:480::52|AS0_|||0.0|0.0|||>");
}

#[test]
fn a_value_that_looks_like_a_field_is_not_expanded() {
    let template = Template::compile("<{ip}|AS{asnnum}>").unwrap();
    let asn = Some(vec![text("{ip}"), None]);
    let table = maxmind_fields("1.2.3.4", &asn, &None);
    assert_eq!(apply_template(&template, &table), "<1.2.3.4|AS{ip}>");
}

#[test]
fn unknown_fields_render_empty() {
    let template = Template::compile("[{ip}|{nothing}]").unwrap();
    let mut table = FieldTable::new();
    table.insert("ip".to_string(), "first".to_string());
    table.insert("ip".to_string(), "second".to_string());
    assert_eq!(table.get("ip"), Some("second"));
    assert_eq!(table.get("nothing"), None);
    assert_eq!(apply_template(&template, &table), "[second|]");
}

#[test]
fn maxmind_provider_lifecycle() {
    let mut provider = MaxMindProvider::new();
    assert_eq!(provider.name(), "MaxMind GeoIP2");
    assert_eq!(provider.default_path(), "/usr/share/GeoIP");
    assert_eq!(
        MaxMindProvider::default_paths(),
        vec!["/usr/share/GeoIP", "/opt/homebrew/var/GeoIP", "/var/lib/GeoIP"]
    );
    assert_eq!(
        provider.required_files(),
        vec![
            "GeoLite2-ASN.mmdb",
            "GeoLite2-City.mmdb",
            "GeoLite2-ASN-IPv4.mmdb",
            "GeoLite2-ASN-IPv6.mmdb",
            "GeoLite2-City-IPv4.mmdb",
            "GeoLite2-City-IPv6.mmdb"
        ]
    );
    let names: Vec<String> = provider.available_fields().into_iter().map(|f| f.name).collect();
    assert_eq!(
        names,
        vec![
            "ip", "asnnum", "asnorg", "city", "continent", "country_iso", "country_full",
            "latitude", "longitude", "timezone"
        ]
    );
    assert!(!provider.is_initialized());
    assert_eq!(provider.database_file(0).as_deref(), Some("GeoLite2-ASN.mmdb"));
    assert_eq!(provider.database_file(1).as_deref(), Some("GeoLite2-City.mmdb"));
    assert_eq!(provider.database_file(2).as_deref(), Some("GeoLite2-ASN-IPv4.mmdb"));
    assert_eq!(provider.database_file(3).as_deref(), Some("GeoLite2-ASN-IPv6.mmdb"));
    assert_eq!(provider.database_file(4).as_deref(), Some("GeoLite2-City-IPv4.mmdb"));
    assert_eq!(provider.database_file(5).as_deref(), Some("GeoLite2-City-IPv6.mmdb"));
    assert_eq!(provider.database_file(6), None);
    match provider.finish_initialize("/nowhere") {
        Err(Error::DatabaseNotFound { path }) => assert_eq!(path, "/nowhere"),
        other => panic!("unexpected: {:?}", other),
    }
    assert!(!provider.is_initialized());
    assert!(!provider.has_asn(&address()));
    let template = Template::compile(DEFAULT_TEMPLATE).unwrap();
    assert_eq!(provider.lookup(&address(), "1.2.3.4", &template), "<1.2.3.4|AS0_||>");
    let mut out = b"x".to_vec();
    provider.write_lookup(&mut out, &address(), "1.2.3.4", &template);
    assert_eq!(out, b"x<1.2.3.4|AS0_||>");
}

#[test]
fn providers_that_know_the_literal_alone() {
    let template = Template::compile("[{ip}|{city}|{country} x y]").unwrap();
    let ip2location = IP2LocationProvider::new();
    assert_eq!(ip2location.name(), "IP2Location");
    assert_eq!(ip2location.default_path(), "/usr/share/IP2Location");
    assert_eq!(ip2location.required_files(), vec!["IP2LOCATION-LITE-DB11.MMDB"]);
    assert_eq!(ip2location.available_fields().len(), 7);
    assert_eq!(
        ip2location.database_file(0).as_deref(),
        Some("IP2LOCATION-LITE-DB11.MMDB")
    );
    assert_eq!(ip2location.database_file(1), None);
    assert!(!ip2location.has_asn(&address()));
    assert_eq!(ip2location.lookup(&address(), "1.2.3.4", &template), "[1.2.3.4|| x y]");

    let mut ipinfo = IPinfoProvider::new();
    assert_eq!(ipinfo.name(), "IPinfo");
    assert_eq!(ipinfo.default_path(), "/usr/share/IPinfo");
    assert_eq!(ipinfo.required_files(), vec!["ip_country_asn.mmdb"]);
    let names: Vec<String> = ipinfo.available_fields().into_iter().map(|f| f.name).collect();
    assert_eq!(names, vec!["ip", "country", "country_name", "asn", "asn_name"]);
    assert!(!ipinfo.has_asn(&address()));
    assert_eq!(ipinfo.lookup(&address(), "1.2.3.4", &template), "[1.2.3.4|| x y]");
    assert!(matches!(
        ipinfo.finish_initialize("/data"),
        Err(Error::DatabaseNotFound { .. })
    ));
}

#[test]
fn custom_provider() {
    let fields = vec![TemplateField {
        name: "ip".to_string(),
        description: "The IP address".to_string(),
        example: "93.184.216.34".to_string(),
    }];
    let provider = CustomProvider::new(
        "My Custom Provider",
        "/usr/share/custom-geoip",
        vec!["custom.mmdb".to_string(), "custom-ipv6.mmdb".to_string()],
        fields,
    );
    assert_eq!(provider.name(), "My Custom Provider");
    assert_eq!(provider.default_path(), "/usr/share/custom-geoip");
    assert_eq!(provider.required_files(), vec!["custom.mmdb", "custom-ipv6.mmdb"]);
    assert_eq!(provider.available_fields()[0].name, "ip");
    assert_eq!(provider.database_file(0).as_deref(), Some("custom.mmdb"));
    assert_eq!(provider.database_file(1), None);
    let template = Template::compile("{ip} seen").unwrap();
    assert_eq!(provider.lookup(&address(), "a b", &template), "a_b seen");
}

#[test]
fn bytes_that_are_no_database_are_refused() {
    match Database::open("GeoLite2-ASN.mmdb", b"certainly not a database".to_vec()) {
        Err(Error::InvalidDatabase { file }) => assert_eq!(file, "GeoLite2-ASN.mmdb"),
        Err(other) => panic!("unexpected: {:?}", other),
        Ok(_) => panic!("opened"),
    }
    assert!(Database::open("empty", Vec::new()).is_err());
}

#[test]
fn registry_with_defaults() {
    let mut registry = ProviderRegistry::with_defaults();
    assert_eq!(registry.available_providers(), vec!["maxmind", "ip2location", "ipinfo"]);
    assert_eq!(registry.get_active_provider().unwrap().name(), "MaxMind GeoIP2");
    assert_eq!(registry.available_fields().unwrap().len(), 10);
    assert!(registry.set_active_provider("ipinfo").is_ok());
    assert_eq!(registry.get_active_provider().unwrap().name(), "IPinfo");
    assert_eq!(registry.available_fields().unwrap().len(), 5);
    match registry.set_active_provider("nothing") {
        Err(Error::UnknownProvider { name }) => assert_eq!(name, "nothing"),
        other => panic!("unexpected: {:?}", other),
    }
    assert_eq!(registry.get_active_provider().unwrap().name(), "IPinfo");
    let template = Template::compile("{ip}").unwrap();
    assert!(matches!(
        registry.lookup(&address(), "1.2.3.4", &template),
        Err(Error::ProviderNotInitialized { .. })
    ));
    assert!(!registry.has_asn(&address()));
    let default_registry: ProviderRegistry<Provider> = Default::default();
    assert_eq!(default_registry.available_providers().len(), 3);
}

#[test]
fn registry_registers_and_replaces() {
    let mut registry: ProviderRegistry<Provider> = ProviderRegistry::new();
    assert!(registry.available_providers().is_empty());
    assert!(matches!(
        registry.get_active_provider().map(|p| p.name()),
        Err(Error::UnknownProvider { .. })
    ));
    assert!(registry.available_fields().is_err());
    assert!(!registry.has_asn(&address()));
    registry.register("one".to_string(), Provider::IPinfo(IPinfoProvider::new()));
    registry.register("two".to_string(), Provider::MaxMind(MaxMindProvider::new()));
    registry.register("one".to_string(), Provider::IP2Location(IP2LocationProvider::new()));
    assert_eq!(registry.available_providers(), vec!["one", "two"]);
    registry.set_active_provider("one").unwrap();
    assert_eq!(registry.get_active_provider().unwrap().name(), "IP2Location");
    let touched = registry
        .with_active_provider_mut(|provider| {
            provider.finish_initialize("/data").map(|_| provider.name())
        })
        .unwrap_err();
    assert!(matches!(touched, Error::DatabaseNotFound { .. }));
    let name = registry
        .with_active_provider_mut(|provider| Ok(provider.default_path()))
        .unwrap();
    assert_eq!(name, "/usr/share/IP2Location");
}

#[test]
fn report_on_the_providers() {
    let mut registry: ProviderRegistry<Provider> = ProviderRegistry::new();
    registry.register("ipinfo".to_string(), Provider::IPinfo(IPinfoProvider::new()));
    registry.register(
        "ip2location".to_string(),
        Provider::IP2Location(IP2LocationProvider::new()),
    );
    let report = registry.print_db_info("GEOIP_MMDB_DIR is set to: /data", &vec![true]);
    assert_eq!(
        report,
        "Environment Status:\n  GEOIP_MMDB_DIR is set to: /data\n\nAvailable MMDB Providers:\n\n\
Provider: ipinfo\n  Name: IPinfo\n  Default Path: /usr/share/IPinfo\n  Required Files:\n    - ip_country_asn.mmdb\n  \
Status: \x1b[32m\u{2713}\x1b[0m Installed (files found at default location)\n\n\
Provider: ip2location\n  Name: IP2Location\n  Default Path: /usr/share/IP2Location\n  Required Files:\n    - IP2LOCATION-LITE-DB11.MMDB\n  \
Status: \x1b[31m\u{2717}\x1b[0m Not installed or custom path required\n\n"
    );
}

#[test]
fn error_messages() {
    assert_eq!(Error::NoPatterns.to_string(), "No IP address patterns selected");
    assert_eq!(
        Error::DatabaseNotFound { path: "/data".to_string() }.to_string(),
        "database not found: /data"
    );
    assert_eq!(
        Error::LookupFailed { ip: "1.2.3.4".to_string() }.to_string(),
        "lookup failed for 1.2.3.4"
    );
    assert_eq!(
        Error::InvalidTemplate { reason: "empty".to_string() }.to_string(),
        "invalid template: empty"
    );
    assert_eq!(
        Error::UnknownProvider { name: "x".to_string() }.to_string(),
        "unknown provider: x"
    );
    assert_eq!(
        Error::ProviderNotInitialized { name: "x".to_string() }.to_string(),
        "provider not initialized: x"
    );
}

#[test]
fn default_registry_has_the_canonical_provider_active() {
    let registry: ProviderRegistry<Provider> = Default::default();
    assert_eq!(registry.get_active_provider().unwrap().name(), "MaxMind GeoIP2");
    assert!(!registry.get_active_provider().unwrap().is_initialized());
    assert!(!registry.has_asn(&address()));
    let template = Template::compile("{ip}").unwrap();
    assert!(matches!(
        registry.lookup(&address(), "8.8.8.8", &template),
        Err(Error::ProviderNotInitialized { .. })
    ));
    let registry = ProviderRegistry::with_defaults();
    assert_eq!(registry.get_active_provider().unwrap().name(), "MaxMind GeoIP2");
}

#[test]
fn the_active_provider_is_handed_to_the_function_once() {
    let mut registry = ProviderRegistry::with_defaults();
    let mut calls = 0;
    let name = registry
        .with_active_provider_mut(|provider| {
            calls += 1;
            Ok(provider.name())
        })
        .unwrap();
    assert_eq!(name, "MaxMind GeoIP2");
    assert_eq!(calls, 1);
    let failed: Result<(), Error> = registry.with_active_provider_mut(|provider| {
        provider.finish_initialize("/nowhere")
    });
    assert!(matches!(failed, Err(Error::DatabaseNotFound { .. })));
    let mut empty: ProviderRegistry<Provider> = ProviderRegistry::new();
    let mut called = false;
    let missing: Result<(), Error> = empty.with_active_provider_mut(|_| {
        called = true;
        Ok(())
    });
    assert!(matches!(missing, Err(Error::UnknownProvider { .. })));
    assert!(!called);
}
