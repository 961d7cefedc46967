use geoipsed::{choose_format, FieldTable, Template, DEFAULT_TEMPLATE};

#[test]
fn basic_template() {
    let t = Template::compile("<{ip}|{country}>").unwrap();
    let mut values = FieldTable::new();
    values.insert("ip".to_string(), "1.2.3.4".to_string());
    values.insert("country".to_string(), "US".to_string());
    assert_eq!(t.render_with_map(&values), "<1.2.3.4|US>");
}

#[test]
fn multiple_fields() {
    let t = Template::compile("{a}-{b}-{c}").unwrap();
    let result = t.render(|name| match name {
        "a" => "1",
        "b" => "2",
        "c" => "3",
        _ => "",
    });
    assert_eq!(result, "1-2-3");
}

#[test]
fn empty_template() {
    let t = Template::compile("").unwrap();
    assert_eq!(t.render(|_| "unused"), "");
}

#[test]
fn all_literal() {
    let t = Template::compile("no fields here").unwrap();
    assert_eq!(t.render(|_| "unused"), "no fields here");
}

#[test]
fn escaped_braces() {
    let t = Template::compile("{{literal}} and {field}").unwrap();
    assert_eq!(t.render(|_| "val"), "{literal} and val");
}

#[test]
fn escaped_closing_brace() {
    let t = Template::compile("value is }}done").unwrap();
    assert_eq!(t.render(|_| ""), "value is }done");
}

#[test]
fn no_double_substitution() {
    // A field value that looks like a field reference must not be expanded.
    let t = Template::compile("{a} and {b}").unwrap();
    let result = t.render(|name| match name {
        "a" => "{b}",
        "b" => "real_b",
        _ => "",
    });
    assert_eq!(result, "{b} and real_b");
}

#[test]
fn unknown_fields_empty() {
    let t = Template::compile("{known} {unknown}").unwrap();
    let mut values = FieldTable::new();
    values.insert("known".to_string(), "yes".to_string());
    assert_eq!(t.render_with_map(&values), "yes ");
}

#[test]
fn fields_method() {
    let t = Template::compile("{ip}|{asnnum}_{asnorg}|{country_iso}").unwrap();
    assert_eq!(t.fields(), vec!["ip", "asnnum", "asnorg", "country_iso"]);
}

#[test]
fn unclosed_brace_is_literal() {
    let t = Template::compile("value is {unclosed").unwrap();
    assert_eq!(t.render(|_| ""), "value is {unclosed");
}

#[test]
fn display_roundtrip() {
    let template_str = "<{ip}|AS{asnnum}_{asnorg}|{country_iso}|{city}>";
    let t = Template::compile(template_str).unwrap();
    assert_eq!(t.to_string(), template_str);
}

#[test]
fn empty_field_name_is_error() {
    assert!(Template::compile("{}").is_err());
}

#[test]
fn geoipsed_default_template() {
    let t = Template::compile("<{ip}|AS{asnnum}_{asnorg}|{country_iso}|{city}>").unwrap();
    let result = t.render(|name| match name {
        "ip" => "93.184.216.34",
        "asnorg" => "EDGECAST",
        "asnnum" => "15133",
        "country_iso" => "US",
        "city" => "Los_Angeles",
        _ => "",
    });
    assert_eq!(result, "<93.184.216.34|AS15133_EDGECAST|US|Los_Angeles>");
}

#[test]
fn estimated_size_counts_literals_and_fields() {
    let t = Template::compile("<{ip}|AS{asnnum}>").unwrap();
    assert_eq!(t.estimated_size(), 1 + 16 + 3 + 16 + 1);
    assert_eq!(Template::compile("").unwrap().estimated_size(), 0);
    assert_eq!(Template::compile("{{}}").unwrap().estimated_size(), 2);
}

#[test]
fn template_errors() {
    let error = Template::compile("a{}b").unwrap_err();
    assert_eq!(error.to_string(), "invalid template: empty field name at position");
    assert!(Template::compile("{x}{}").is_err());
    assert!(Template::compile("{{}").is_ok());
    assert!(Template::compile("{").is_ok());
    assert!(Template::compile("}").is_ok());
}

#[test]
fn template_corner_cases() {
    let t = Template::compile("{a}{b}").unwrap();
    assert_eq!(t.fields(), vec!["a", "b"]);
    assert_eq!(t.render(|name| if name == "a" { "1" } else { "2" }), "12");
    let t = Template::compile("{{{a}}}").unwrap();
    assert_eq!(t.fields(), vec!["a"]);
    assert_eq!(t.render(|_| "v"), "{v}");
    let t = Template::compile("x{ a b }y").unwrap();
    assert_eq!(t.fields(), vec![" a b "]);
    let t = Template::compile("caf\u{e9} {ip} \u{2713}").unwrap();
    assert_eq!(t.render(|_| "1.2.3.4"), "caf\u{e9} 1.2.3.4 \u{2713}");
    assert_eq!(t.to_string(), "caf\u{e9} {ip} \u{2713}");
    let copy = t.clone();
    assert_eq!(copy.to_string(), t.to_string());
    assert_eq!(copy.estimated_size(), t.estimated_size());
}

#[test]
fn write_appends_bytes() {
    let t = Template::compile("<{ip}|{x}>").unwrap();
    let mut out = b"^".to_vec();
    t.write(&mut out, |name| if name == "ip" { "::1" } else { "{ip}" });
    assert_eq!(out, b"^<::1|{ip}>");
}

#[test]
fn format_strings() {
    assert_eq!(DEFAULT_TEMPLATE, "<{ip}|AS{asnnum}_{asnorg}|{country_iso}|{city}>");
    assert_eq!(choose_format(None, false), DEFAULT_TEMPLATE);
    assert_eq!(choose_format(Some("{ip}"), false), "{ip}");
    assert_eq!(choose_format(Some("{ip}"), true), "\x1b[1;31m{ip}\x1b[0;0m");
    assert_eq!(
        choose_format(None, true),
        "\x1b[1;31m<{ip}|AS{asnnum}_{asnorg}|{country_iso}|{city}>\x1b[0;0m"
    );
}
