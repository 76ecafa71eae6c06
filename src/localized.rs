//! A text value tagged with its language, rendered as one element per value.
use crate::xml::{attrs_view, element, write_element, EncodingError};
use vstd::prelude::*;
use vstd::string::*;

verus! {

/// The language attribute's name.
pub open spec fn lang_attr_name() -> Seq<char> {
    seq!['x', 'm', 'l', ':', 'l', 'a', 'n', 'g']
}

/// Abstract content of a [`LocalizedString`].
pub ghost struct LocalizedText {
    pub lang: Seq<char>,
    pub value: Seq<char>,
}

/// A text value in one language.
#[derive(Clone, Debug, Default, Hash, PartialEq, Eq, PartialOrd, Ord)]
pub struct LocalizedString {
    pub lang: String,
    pub value: String,
}

impl View for LocalizedString {
    type V = LocalizedText;

    open spec fn view(&self) -> LocalizedText {
        LocalizedText { lang: self.lang@, value: self.value@ }
    }
}

/// `<name xml:lang="lang">value</name>`, the value taken as XML text as it is.
pub open spec fn localized_xml(t: LocalizedText, name: Seq<char>) -> Seq<char> {
    element(name, seq![(lang_attr_name(), t.lang)], t.value)
}

impl LocalizedString {
    pub fn new(lang: String, value: String) -> (r: Self)
        ensures
            r.lang@ == lang@,
            r.value@ == value@,
    {
        LocalizedString { lang, value }
    }

    /// Renders this value as an element named `element_name`.
    pub fn to_xml(&self, element_name: &str) -> (r: Result<String, EncodingError>)
        ensures
            r is Ok,
            r->Ok_0@ == localized_xml(self@, element_name@),
    {
        let key = String::from_str("xml:lang");
        proof {
            reveal_strlit("xml:lang");
        }
        assert(key@ =~= lang_attr_name());
        let lang = self.lang.clone();
        let mut attrs: Vec<(String, String)> = Vec::new();
        attrs.push((key, lang));
        assert(attrs@[0].0@ == lang_attr_name() && attrs@[0].1@ == self.lang@);
        assert(attrs_view(attrs@) =~= seq![(lang_attr_name(), self.lang@)]);
        write_element(element_name, &attrs, self.value.as_str())
    }
}

} // verus!
