//! Finds IPv4 and IPv6 literals in byte streams and decorates them with
//! geolocation fields rendered through a template.
//!
//! The extractor finds the literals, the providers look their addresses
//! up, the templates render what was found, and the transformer weaves the
//! result into the text.

pub mod address;
pub mod cache;
pub mod database;
pub mod error;
pub mod extractor;
pub mod grammar;
pub mod input;
pub mod ipv4;
pub mod ipv6;
pub mod matches;
pub mod mmdb;
pub mod providers;
pub mod registry;
pub mod splice;
pub mod tag;
pub mod template;
pub mod text;
pub mod transform;

pub use address::{parse_address, parse_literal, IpAddress};
pub use database::Database;
pub use error::Error;
pub use extractor::{
    extract, extract_parsed, extract_unique, extract_unique_parsed, is_ip_char, AddressKind,
    Extractor, ExtractorBuilder,
    ExtractorConfig, Match, ValidatorType,
};
pub use input::Line;
pub use ipv4::{parse_ipv4_bytes, validate_ipv4, Ipv4Address};
pub use ipv6::{parse_ipv6_bytes, validate_ipv6, Ipv6Address};
pub use mmdb::{apply_template, maxmind_fields, MmdbProvider, TemplateField};
pub use providers::{
    CustomProvider, IP2LocationProvider, IPinfoProvider, MaxMindProvider, Provider,
};
pub use registry::ProviderRegistry;
pub use tag::{json_document, tag_object, Tag, Tagged, TextData};
pub use template::{choose_format, FieldTable, Template, TemplateError, DEFAULT_TEMPLATE};
pub use transform::Transformer;
