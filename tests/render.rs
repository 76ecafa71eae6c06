use saml_mdui::xml::{to_decimal, write_element};
use saml_mdui::{EncodingError, Extensions, LocalizedString, Logo, UiInfo};

fn text(lang: &str, value: &str) -> LocalizedString {
    LocalizedString::new(lang.to_string(), value.to_string())
}

fn sample_logo() -> Logo {
    Logo::new("https://example.org/logo.png".to_string(), 16, 16)
}

#[test]
fn logo_with_both_sizes() {
    let xml = sample_logo().to_xml("mdui:Logo").unwrap();
    assert_eq!(
        xml,
        "<mdui:Logo width=\"16\" height=\"16\">https://example.org/logo.png</mdui:Logo>"
    );
}

#[test]
fn logo_without_sizes_has_no_size_attributes() {
    let logo = Logo { width: None, height: None, logo_url: "u".to_string() };
    assert_eq!(logo.to_xml("mdui:Logo").unwrap(), "<mdui:Logo>u</mdui:Logo>");
}

#[test]
fn logo_with_width_only() {
    let logo = Logo { width: Some(120), height: None, logo_url: "u".to_string() };
    assert_eq!(logo.to_xml("mdui:Logo").unwrap(), "<mdui:Logo width=\"120\">u</mdui:Logo>");
}

#[test]
fn logo_with_height_only() {
    let logo = Logo { width: None, height: Some(0), logo_url: "u".to_string() };
    assert_eq!(logo.to_xml("img").unwrap(), "<img height=\"0\">u</img>");
}

#[test]
fn logo_url_is_written_as_it_is() {
    let logo = Logo { width: None, height: None, logo_url: "a?x=1&amp;y=2".to_string() };
    assert_eq!(logo.to_xml("L").unwrap(), "<L>a?x=1&amp;y=2</L>");
}

#[test]
fn logo_largest_size() {
    let logo = Logo { width: Some(usize::MAX), height: None, logo_url: String::new() };
    let expected = format!("<L width=\"{}\"></L>", usize::MAX);
    assert_eq!(logo.to_xml("L").unwrap(), expected);
}

#[test]
fn logo_new_sets_both_sizes() {
    let logo = Logo::new("x".to_string(), 3, 4);
    assert_eq!(logo.width, Some(3));
    assert_eq!(logo.height, Some(4));
    assert_eq!(logo.logo_url, "x");
}

#[test]
fn localized_text_carries_language() {
    let xml = text("en", "Example").to_xml("mdui:DisplayName").unwrap();
    assert_eq!(xml, "<mdui:DisplayName xml:lang=\"en\">Example</mdui:DisplayName>");
}

#[test]
fn attribute_values_are_escaped() {
    let xml = text("a&b<\"'>\t", "v").to_xml("n").unwrap();
    assert_eq!(xml, "<n xml:lang=\"a&amp;b&lt;&quot;&apos;&gt;&#9;\">v</n>");
}

#[test]
fn element_with_attributes_in_order() {
    let attrs = vec![("a".to_string(), "1".to_string()), ("b".to_string(), "x\ny".to_string())];
    assert_eq!(write_element("e", &attrs, "t").unwrap(), "<e a=\"1\" b=\"x&#10;y\">t</e>");
    assert_eq!(write_element("e", &Vec::new(), "").unwrap(), "<e></e>");
}

#[test]
fn decimal_numerals() {
    assert_eq!(to_decimal(0), "0");
    assert_eq!(to_decimal(7), "7");
    assert_eq!(to_decimal(10), "10");
    assert_eq!(to_decimal(1024), "1024");
    assert_eq!(to_decimal(usize::MAX), usize::MAX.to_string());
}

#[test]
fn ui_info_empty() {
    let xml = UiInfo::default().to_xml().unwrap();
    assert_eq!(
        xml,
        "<mdui:UIInfo xmlns:mdui=\"urn:oasis:names:tc:SAML:metadata:ui\"></mdui:UIInfo>"
    );
}

#[test]
fn ui_info_single_logo() {
    let ui = UiInfo { logo: vec![sample_logo()], ..UiInfo::default() };
    assert_eq!(
        ui.to_xml().unwrap(),
        "<mdui:UIInfo xmlns:mdui=\"urn:oasis:names:tc:SAML:metadata:ui\">\
         <mdui:Logo width=\"16\" height=\"16\">https://example.org/logo.png</mdui:Logo>\
         </mdui:UIInfo>"
    );
}

fn full_ui_info() -> UiInfo {
    UiInfo {
        display_name: vec![text("en", "Name"), text("de", "Name DE")],
        description: vec![text("en", "Desc")],
        keywords: vec![text("en", "k1 k2")],
        logo: vec![
            Logo { width: Some(1), height: None, logo_url: "l1".to_string() },
            Logo { width: None, height: None, logo_url: "l2".to_string() },
        ],
        information_url: vec![text("en", "https://i")],
        privacy_statement_url: vec![text("en", "https://p"), text("fr", "https://p/fr")],
    }
}

#[test]
fn ui_info_groups_in_schema_order() {
    let xml = full_ui_info().to_xml().unwrap();
    assert_eq!(
        xml,
        "<mdui:UIInfo xmlns:mdui=\"urn:oasis:names:tc:SAML:metadata:ui\">\
         <mdui:DisplayName xml:lang=\"en\">Name</mdui:DisplayName>\
         <mdui:DisplayName xml:lang=\"de\">Name DE</mdui:DisplayName>\
         <mdui:Description xml:lang=\"en\">Desc</mdui:Description>\
         <mdui:Keywords xml:lang=\"en\">k1 k2</mdui:Keywords>\
         <mdui:Logo width=\"1\">l1</mdui:Logo>\
         <mdui:Logo>l2</mdui:Logo>\
         <mdui:InformationURL xml:lang=\"en\">https://i</mdui:InformationURL>\
         <mdui:PrivacyStatementURL xml:lang=\"en\">https://p</mdui:PrivacyStatementURL>\
         <mdui:PrivacyStatementURL xml:lang=\"fr\">https://p/fr</mdui:PrivacyStatementURL>\
         </mdui:UIInfo>"
    );
}

#[test]
fn ui_info_child_counts_match_lengths() {
    let ui = full_ui_info();
    let xml = ui.to_xml().unwrap();
    assert_eq!(xml.matches("<mdui:DisplayName ").count(), ui.display_name.len());
    assert_eq!(xml.matches("<mdui:Description ").count(), ui.description.len());
    assert_eq!(xml.matches("<mdui:Keywords ").count(), ui.keywords.len());
    assert_eq!(xml.matches("</mdui:Logo>").count(), ui.logo.len());
    assert_eq!(xml.matches("<mdui:InformationURL ").count(), ui.information_url.len());
    assert_eq!(xml.matches("<mdui:PrivacyStatementURL ").count(), ui.privacy_statement_url.len());
    assert!(xml.find("Name DE").unwrap() > xml.find(">Name<").unwrap());
}

#[test]
fn rendering_twice_gives_same_bytes() {
    let ui = full_ui_info();
    assert_eq!(ui.to_xml().unwrap(), ui.to_xml().unwrap());
    let x = Extensions { ui_info: Some(ui) };
    assert_eq!(x.to_xml().unwrap(), x.to_xml().unwrap());
}

#[test]
fn equal_content_renders_the_same() {
    let first = full_ui_info();
    let decoded = first.clone();
    assert_eq!(first, decoded);
    assert_eq!(first.to_xml().unwrap(), decoded.to_xml().unwrap());
}

#[test]
fn extensions_without_ui_info_is_empty() {
    let x = Extensions { ui_info: None };
    assert_eq!(x.to_xml().unwrap(), "<md:Extensions></md:Extensions>");
    assert_eq!(Extensions::default().to_xml().unwrap(), "<md:Extensions></md:Extensions>");
}

#[test]
fn extensions_wraps_ui_info_unchanged() {
    let ui = UiInfo { logo: vec![sample_logo()], ..UiInfo::default() };
    let inner = ui.to_xml().unwrap();
    let x = Extensions { ui_info: Some(ui) };
    assert_eq!(x.to_xml().unwrap(), format!("<md:Extensions>{}</md:Extensions>", inner));
}

#[test]
fn structural_equality_keeps_order() {
    let a = UiInfo { display_name: vec![text("en", "a"), text("en", "b")], ..UiInfo::default() };
    let b = UiInfo { display_name: vec![text("en", "b"), text("en", "a")], ..UiInfo::default() };
    assert_ne!(a, b);
    assert!(a < b);
}

#[test]
fn encoding_error_variants_differ() {
    assert_ne!(EncodingError::Write, EncodingError::Text);
}

#[test]
fn logo_with_larger_sizes() {
    let logo = Logo::new("https://example.org/big.png".to_string(), 640, 480);
    assert_eq!(
        logo.to_xml("mdui:Logo").unwrap(),
        "<mdui:Logo width=\"640\" height=\"480\">https://example.org/big.png</mdui:Logo>"
    );
}

#[test]
fn ui_info_logos_keep_input_order() {
    let ui = UiInfo {
        logo: vec![
            Logo::new("b".to_string(), 1, 2),
            Logo { width: None, height: None, logo_url: "a".to_string() },
        ],
        ..UiInfo::default()
    };
    assert_eq!(
        ui.to_xml().unwrap(),
        "<mdui:UIInfo xmlns:mdui=\"urn:oasis:names:tc:SAML:metadata:ui\">\
         <mdui:Logo width=\"1\" height=\"2\">b</mdui:Logo><mdui:Logo>a</mdui:Logo>\
         </mdui:UIInfo>"
    );
}
