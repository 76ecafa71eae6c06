//! The `mdui:UIInfo` element and the logos it carries.
use crate::localized::{localized_xml, LocalizedString, LocalizedText};
use crate::xml::{
    attributes_text, attrs_view, decimal, element, end_tag, escaped, joined, lemma_decimal_digits,
    lemma_escaped_digits, lemma_joined_append, lemma_joined_push, start_tag, to_decimal,
    write_element, write_end, write_start, EncodingError,
};
use vstd::prelude::*;
use vstd::string::*;

verus! {

pub open spec fn width_attr_name() -> Seq<char> {
    "width"@
}

pub open spec fn height_attr_name() -> Seq<char> {
    "height"@
}

/// Abstract content of a [`Logo`].
pub ghost struct LogoModel {
    pub width: Option<usize>,
    pub height: Option<usize>,
    pub logo_url: Seq<char>,
}

/// A logo: its URL and, each optionally, its width and height in pixels.
#[derive(Clone, Debug, Hash, PartialEq, Eq, PartialOrd, Ord)]
pub struct Logo {
    pub width: Option<usize>,
    pub height: Option<usize>,
    pub logo_url: String,
}

impl View for Logo {
    type V = LogoModel;

    open spec fn view(&self) -> LogoModel {
        LogoModel { width: self.width, height: self.height, logo_url: self.logo_url@ }
    }
}

/// `width`, then `height`, each only when present, as decimal numerals.
pub open spec fn logo_attrs(l: LogoModel) -> Seq<(Seq<char>, Seq<char>)> {
    (match l.width {
        Some(w) => seq![(width_attr_name(), decimal(w as nat))],
        None => Seq::empty(),
    }) + (match l.height {
        Some(h) => seq![(height_attr_name(), decimal(h as nat))],
        None => Seq::empty(),
    })
}

/// `<name width="W" height="H">url</name>`, the URL taken as XML text as it is.
pub open spec fn logo_xml(l: LogoModel, name: Seq<char>) -> Seq<char> {
    element(name, logo_attrs(l), l.logo_url)
}

/// ` name="N"` for a dimension that is present, nothing for one that is absent.
pub open spec fn size_attr_text(name: Seq<char>, v: Option<usize>) -> Seq<char> {
    match v {
        Some(n) => seq![' '] + name + seq!['=', '"'] + decimal(n as nat) + seq!['"'],
        None => Seq::empty(),
    }
}

/// A logo's element carries a `width` attribute exactly when the width is
/// present and a `height` attribute exactly when the height is present,
/// width first, each the plain decimal numeral of the value; with neither
/// present the start tag is the bare name.
pub proof fn lemma_logo_text(l: LogoModel, name: Seq<char>)
    ensures
        logo_xml(l, name) == seq!['<'] + name + size_attr_text(width_attr_name(), l.width)
            + size_attr_text(height_attr_name(), l.height) + seq!['>'] + l.logo_url + end_tag(
            name,
        ),
        l.width is None && l.height is None ==> logo_xml(l, name) == seq!['<'] + name + seq!['>']
            + l.logo_url + end_tag(name),
{
    let wt = size_attr_text(width_attr_name(), l.width);
    let ht = size_attr_text(height_attr_name(), l.height);
    assert forall|k: Seq<char>, v: Seq<char>|
        #[trigger] attributes_text(seq![(k, v)]) == seq![' '] + k + seq!['=', '"'] + escaped(v)
            + seq!['"'] by {
        let a = seq![(k, v)];
        assert(a.drop_first() =~= Seq::<(Seq<char>, Seq<char>)>::empty());
        assert(attributes_text(a.drop_first()) =~= Seq::<char>::empty());
        assert(attributes_text(a) =~= seq![' '] + k + seq!['=', '"'] + escaped(v) + seq!['"']);
    }
    if let Some(w) = l.width {
        lemma_decimal_digits(w as nat);
        lemma_escaped_digits(decimal(w as nat));
    }
    if let Some(h) = l.height {
        lemma_decimal_digits(h as nat);
        lemma_escaped_digits(decimal(h as nat));
    }
    let attrs = logo_attrs(l);
    assert(attributes_text(Seq::<(Seq<char>, Seq<char>)>::empty()) =~= Seq::<char>::empty());
    if l.width is Some && l.height is Some {
        let w = l.width->Some_0;
        let h = l.height->Some_0;
        let rest = seq![(height_attr_name(), decimal(h as nat))];
        assert(attrs.drop_first() =~= rest);
        assert(attributes_text(rest) == ht);
        assert(attributes_text(attrs) == seq![' '] + width_attr_name() + seq!['=', '"'] + escaped(
            decimal(w as nat),
        ) + seq!['"'] + attributes_text(rest));
        assert(attributes_text(attrs) =~= wt + ht);
    } else if l.width is Some {
        assert(attrs =~= seq![(width_attr_name(), decimal(l.width->Some_0 as nat))]);
        assert(attributes_text(attrs) =~= wt + ht);
    } else if l.height is Some {
        assert(attrs =~= seq![(height_attr_name(), decimal(l.height->Some_0 as nat))]);
        assert(attributes_text(attrs) =~= wt + ht);
    } else {
        assert(attrs =~= Seq::<(Seq<char>, Seq<char>)>::empty());
        assert(attributes_text(attrs) =~= wt + ht);
    }
    assert(logo_xml(l, name) =~= seq!['<'] + name + wt + ht + seq!['>'] + l.logo_url + end_tag(
        name,
    ));
}

impl Logo {
    /// A logo with both dimensions given.
    pub fn new(logo_url: String, width: usize, height: usize) -> (r: Self)
        ensures
            r.width == Some(width),
            r.height == Some(height),
            r.logo_url@ == logo_url@,
    {
        Logo { width: Some(width), height: Some(height), logo_url }
    }

    /// The attributes of this logo's element: `width`, then `height`, each
    /// only when present, as decimal numerals.
    pub fn attributes(&self) -> (r: Vec<(String, String)>)
        ensures
            attrs_view(r@) == logo_attrs(self@),
    {
        let mut attrs: Vec<(String, String)> = Vec::new();
        let ghost mut expected: Seq<(Seq<char>, Seq<char>)> = Seq::empty();
        if let Some(w) = self.width {
            attrs.push((String::from_str("width"), to_decimal(w)));
            proof {
                expected = seq![(width_attr_name(), decimal(w as nat))];
            }
        }
        assert(attrs_view(attrs@) =~= expected);
        if let Some(h) = self.height {
            attrs.push((String::from_str("height"), to_decimal(h)));
            proof {
                expected = expected + seq![(height_attr_name(), decimal(h as nat))];
            }
            assert(attrs_view(attrs@) =~= expected);
        }
        assert(expected =~= logo_attrs(self@));
        attrs
    }

    /// Renders this logo as an element named `element_name`.
    pub fn to_xml(&self, element_name: &str) -> (r: Result<String, EncodingError>)
        ensures
            r is Ok,
            r->Ok_0@ == logo_xml(self@, element_name@),
    {
        let attrs = self.attributes();
        write_element(element_name, &attrs, self.logo_url.as_str())
    }
}

pub open spec fn ui_info_tag() -> Seq<char> {
    "mdui:UIInfo"@
}

pub open spec fn namespace_attr_name() -> Seq<char> {
    "xmlns:mdui"@
}

pub open spec fn namespace_uri() -> Seq<char> {
    "urn:oasis:names:tc:SAML:metadata:ui"@
}

pub open spec fn display_name_tag() -> Seq<char> {
    "mdui:DisplayName"@
}

pub open spec fn description_tag() -> Seq<char> {
    "mdui:Description"@
}

pub open spec fn keywords_tag() -> Seq<char> {
    "mdui:Keywords"@
}

pub open spec fn logo_tag() -> Seq<char> {
    "mdui:Logo"@
}

pub open spec fn information_url_tag() -> Seq<char> {
    "mdui:InformationURL"@
}

pub open spec fn privacy_statement_url_tag() -> Seq<char> {
    "mdui:PrivacyStatementURL"@
}

/// Abstract content of a [`UiInfo`].
pub ghost struct UiInfoModel {
    pub display_name: Seq<LocalizedText>,
    pub description: Seq<LocalizedText>,
    pub keywords: Seq<LocalizedText>,
    pub logo: Seq<LogoModel>,
    pub information_url: Seq<LocalizedText>,
    pub privacy_statement_url: Seq<LocalizedText>,
}

/// Presentation data of an entity: names, descriptions, keywords, logos and
/// links, each any number of times.
#[derive(Clone, Debug, Default, Hash, PartialEq, Eq, PartialOrd, Ord)]
pub struct UiInfo {
    pub display_name: Vec<LocalizedString>,
    pub description: Vec<LocalizedString>,
    pub keywords: Vec<LocalizedString>,
    pub logo: Vec<Logo>,
    pub information_url: Vec<LocalizedString>,
    pub privacy_statement_url: Vec<LocalizedString>,
}

pub open spec fn texts_view(v: Seq<LocalizedString>) -> Seq<LocalizedText> {
    v.map_values(|x: LocalizedString| x@)
}

pub open spec fn logos_view(v: Seq<Logo>) -> Seq<LogoModel> {
    v.map_values(|x: Logo| x@)
}

impl View for UiInfo {
    type V = UiInfoModel;

    open spec fn view(&self) -> UiInfoModel {
        UiInfoModel {
            display_name: texts_view(self.display_name@),
            description: texts_view(self.description@),
            keywords: texts_view(self.keywords@),
            logo: logos_view(self.logo@),
            information_url: texts_view(self.information_url@),
            privacy_statement_url: texts_view(self.privacy_statement_url@),
        }
    }
}

/// One element named `name` per text, in order.
pub open spec fn text_elements(ts: Seq<LocalizedText>, name: Seq<char>) -> Seq<Seq<char>> {
    ts.map_values(|t: LocalizedText| localized_xml(t, name))
}

/// One `mdui:Logo` element per logo, in order.
pub open spec fn logo_elements(ls: Seq<LogoModel>) -> Seq<Seq<char>> {
    ls.map_values(|l: LogoModel| logo_xml(l, logo_tag()))
}

/// The children of `mdui:UIInfo`: the six groups in their fixed order, each
/// group's entries in their own order.
pub open spec fn ui_info_children(u: UiInfoModel) -> Seq<Seq<char>> {
    text_elements(u.display_name, display_name_tag()) + text_elements(
        u.description,
        description_tag(),
    ) + text_elements(u.keywords, keywords_tag()) + logo_elements(u.logo) + text_elements(
        u.information_url,
        information_url_tag(),
    ) + text_elements(u.privacy_statement_url, privacy_statement_url_tag())
}

/// The `mdui:UIInfo` start tag, which declares the namespace.
pub open spec fn ui_info_start() -> Seq<char> {
    start_tag(ui_info_tag(), seq![(namespace_attr_name(), namespace_uri())])
}

/// `<mdui:UIInfo xmlns:mdui="...">children</mdui:UIInfo>`
pub open spec fn ui_info_xml(u: UiInfoModel) -> Seq<char> {
    ui_info_start() + joined(ui_info_children(u)) + end_tag(ui_info_tag())
}

/// Reading the children back: the element is its start tag, its children one
/// after another and its end tag; there is exactly one child per entry of the
/// six groups, the groups in their fixed order and the entries of each group in
/// their own order.
pub proof fn lemma_children_in_order(u: UiInfoModel)
    ensures
        ui_info_xml(u) == ui_info_start() + joined(ui_info_children(u)) + end_tag(ui_info_tag()),
        ui_info_children(u).len() == u.display_name.len() + u.description.len()
            + u.keywords.len() + u.logo.len() + u.information_url.len()
            + u.privacy_statement_url.len(),
        forall|i: int|
            0 <= i < u.display_name.len() ==> #[trigger] ui_info_children(u)[i] == localized_xml(
                u.display_name[i],
                display_name_tag(),
            ),
        forall|i: int|
            0 <= i < u.description.len() ==> #[trigger] ui_info_children(u)[u.display_name.len()
                + i] == localized_xml(u.description[i], description_tag()),
        forall|i: int|
            0 <= i < u.keywords.len() ==> #[trigger] ui_info_children(u)[u.display_name.len()
                + u.description.len() + i] == localized_xml(u.keywords[i], keywords_tag()),
        forall|i: int|
            0 <= i < u.logo.len() ==> #[trigger] ui_info_children(u)[u.display_name.len()
                + u.description.len() + u.keywords.len() + i] == logo_xml(u.logo[i], logo_tag()),
        forall|i: int|
            0 <= i < u.information_url.len() ==> #[trigger] ui_info_children(u)[u.display_name.len()
                + u.description.len() + u.keywords.len() + u.logo.len() + i] == localized_xml(
                u.information_url[i],
                information_url_tag(),
            ),
        forall|i: int|
            0 <= i < u.privacy_statement_url.len() ==> #[trigger] ui_info_children(
                u,
            )[u.display_name.len() + u.description.len() + u.keywords.len() + u.logo.len()
                + u.information_url.len() + i] == localized_xml(
                u.privacy_statement_url[i],
                privacy_statement_url_tag(),
            ),
{
}

/// Rendering depends on the content alone. As [`UiInfo::to_xml`] always
/// returns `Ok` with `ui_info_xml` of the value's content, two renders of
/// values with the same content, or of one unchanged value, both succeed with
/// the same text.
pub proof fn lemma_render_deterministic(a: UiInfo, b: UiInfo, ra: String, rb: String)
    requires
        a@ == b@,
        ra@ == ui_info_xml(a@),
        rb@ == ui_info_xml(b@),
    ensures
        ra@ == rb@,
{
}

/// Encode, decode, encode: where decoding the text that [`UiInfo::to_xml`]
/// returned for `u` gives a value with `u`'s content, rendering that value
/// succeeds (as every render does) with the same text.
pub proof fn lemma_round_trip(
    u: UiInfo,
    decode: spec_fn(Seq<char>) -> UiInfoModel,
    first: String,
    decoded: UiInfo,
    second: String,
)
    requires
        first@ == ui_info_xml(u@),
        decode(first@) == u@,
        decoded@ == decode(first@),
        second@ == ui_info_xml(decoded@),
    ensures
        second@ == first@,
{
}

/// Renders each text as an element named `name`, one after another.
fn text_group(items: &Vec<LocalizedString>, name: &str) -> (r: Result<String, EncodingError>)
    ensures
        r is Ok,
        r->Ok_0@ == joined(text_elements(texts_view(items@), name@)),
{
    let ghost frags = text_elements(texts_view(items@), name@);
    let mut out = String::new();
    let mut i: usize = 0;
    while i < items.len()
        invariant
            i <= items@.len(),
            frags == text_elements(texts_view(items@), name@),
            out@ == joined(frags.take(i as int)),
        decreases items@.len() - i,
    {
        let s = match items[i].to_xml(name) {
            Ok(s) => s,
            Err(e) => return Err(e),
        };
        proof {
            assert(frags.take(i + 1) =~= frags.take(i as int).push(s@));
            lemma_joined_push(frags.take(i as int), s@);
        }
        out = out.concat(s.as_str());
        i += 1;
    }
    assert(frags.take(i as int) =~= frags);
    Ok(out)
}

/// Renders each logo as an `mdui:Logo` element, one after another.
fn logo_group(items: &Vec<Logo>) -> (r: Result<String, EncodingError>)
    ensures
        r is Ok,
        r->Ok_0@ == joined(logo_elements(logos_view(items@))),
{
    let ghost frags = logo_elements(logos_view(items@));
    let name = "mdui:Logo";
    let mut out = String::new();
    let mut i: usize = 0;
    while i < items.len()
        invariant
            i <= items@.len(),
            name@ == logo_tag(),
            frags == logo_elements(logos_view(items@)),
            out@ == joined(frags.take(i as int)),
        decreases items@.len() - i,
    {
        let s = match items[i].to_xml(name) {
            Ok(s) => s,
            Err(e) => return Err(e),
        };
        proof {
            assert(frags.take(i + 1) =~= frags.take(i as int).push(s@));
            lemma_joined_push(frags.take(i as int), s@);
        }
        out = out.concat(s.as_str());
        i += 1;
    }
    assert(frags.take(i as int) =~= frags);
    Ok(out)
}

impl UiInfo {
    /// Renders the `mdui:UIInfo` element with all its children.
    pub fn to_xml(&self) -> (r: Result<String, EncodingError>)
        ensures
            r is Ok,
            r->Ok_0@ == ui_info_xml(self@),
    {
        let name = "mdui:UIInfo";
        let mut attrs: Vec<(String, String)> = Vec::new();
        attrs.push((String::from_str("xmlns:mdui"), String::from_str("urn:oasis:names:tc:SAML:metadata:ui")));
        assert(attrs_view(attrs@) =~= seq![(namespace_attr_name(), namespace_uri())]);
        let start = match write_start(name, &attrs) {
            Ok(s) => s,
            Err(e) => return Err(e),
        };
        let g1 = match text_group(&self.display_name, "mdui:DisplayName") {
            Ok(s) => s,
            Err(e) => return Err(e),
        };
        let g2 = match text_group(&self.description, "mdui:Description") {
            Ok(s) => s,
            Err(e) => return Err(e),
        };
        let g3 = match text_group(&self.keywords, "mdui:Keywords") {
            Ok(s) => s,
            Err(e) => return Err(e),
        };
        let g4 = match logo_group(&self.logo) {
            Ok(s) => s,
            Err(e) => return Err(e),
        };
        let g5 = match text_group(&self.information_url, "mdui:InformationURL") {
            Ok(s) => s,
            Err(e) => return Err(e),
        };
        let g6 = match text_group(&self.privacy_statement_url, "mdui:PrivacyStatementURL") {
            Ok(s) => s,
            Err(e) => return Err(e),
        };
        let end = match write_end(name) {
            Ok(s) => s,
            Err(e) => return Err(e),
        };
        proof {
            let u = self@;
            let e1 = text_elements(u.display_name, display_name_tag());
            let e2 = text_elements(u.description, description_tag());
            let e3 = text_elements(u.keywords, keywords_tag());
            let e4 = logo_elements(u.logo);
            let e5 = text_elements(u.information_url, information_url_tag());
            let e6 = text_elements(u.privacy_statement_url, privacy_statement_url_tag());
            lemma_joined_append(e1, e2);
            lemma_joined_append(e1 + e2, e3);
            lemma_joined_append(e1 + e2 + e3, e4);
            lemma_joined_append(e1 + e2 + e3 + e4, e5);
            lemma_joined_append(e1 + e2 + e3 + e4 + e5, e6);
        }
        let out = start.concat(g1.as_str()).concat(g2.as_str()).concat(g3.as_str()).concat(
            g4.as_str(),
        ).concat(g5.as_str()).concat(g6.as_str()).concat(end.as_str());
        assert(out@ =~= ui_info_xml(self@));
        Ok(out)
    }
}

} // verus!
