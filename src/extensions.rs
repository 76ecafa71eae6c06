//! The `md:Extensions` element that carries the user-interface block.
use crate::ui_info::{ui_info_xml, UiInfo, UiInfoModel};
use crate::xml::{end_tag, write_end, write_start, EncodingError};
use vstd::prelude::*;
use vstd::string::*;

verus! {

pub open spec fn extensions_tag() -> Seq<char> {
    "md:Extensions"@
}

/// Abstract content of an [`Extensions`].
pub ghost struct ExtensionsModel {
    pub ui_info: Option<UiInfoModel>,
}

/// The extensions of a metadata element: an optional `mdui:UIInfo` block.
#[derive(Clone, Debug, Default, Hash, PartialEq, Eq, PartialOrd, Ord)]
pub struct Extensions {
    pub ui_info: Option<UiInfo>,
}

impl View for Extensions {
    type V = ExtensionsModel;

    open spec fn view(&self) -> ExtensionsModel {
        ExtensionsModel {
            ui_info: match self.ui_info {
                Some(u) => Some(u@),
                None => None,
            },
        }
    }
}

/// `<md:Extensions>`, with no attribute.
pub open spec fn extensions_start() -> Seq<char> {
    seq!['<'] + extensions_tag() + seq!['>']
}

/// `<md:Extensions>ui</md:Extensions>`, where `ui` is the `mdui:UIInfo`
/// element when there is one and nothing otherwise.
pub open spec fn extensions_xml(x: ExtensionsModel) -> Seq<char> {
    extensions_start() + (match x.ui_info {
        Some(u) => ui_info_xml(u),
        None => Seq::empty(),
    }) + end_tag(extensions_tag())
}

/// Without a `mdui:UIInfo` block the wrapper is rendered empty:
/// `<md:Extensions></md:Extensions>`.
pub proof fn lemma_empty_extensions(x: ExtensionsModel)
    requires
        x.ui_info is None,
    ensures
        extensions_xml(x) == "<md:Extensions></md:Extensions>"@,
{
    reveal_strlit("md:Extensions");
    reveal_strlit("<md:Extensions></md:Extensions>");
    assert(extensions_xml(x) =~= "<md:Extensions></md:Extensions>"@);
}

/// With a block present the wrapper holds exactly the block's own text, and
/// adds no attribute.
pub proof fn lemma_wraps_ui_info(x: ExtensionsModel, u: UiInfoModel)
    requires
        x.ui_info == Some(u),
    ensures
        extensions_xml(x) == "<md:Extensions>"@ + ui_info_xml(u) + "</md:Extensions>"@,
{
    reveal_strlit("md:Extensions");
    reveal_strlit("<md:Extensions>");
    reveal_strlit("</md:Extensions>");
    assert(extensions_start() =~= "<md:Extensions>"@);
    assert(end_tag(extensions_tag()) =~= "</md:Extensions>"@);
}

impl Extensions {
    /// Renders the `md:Extensions` element.
    pub fn to_xml(&self) -> (r: Result<String, EncodingError>)
        ensures
            r is Ok,
            r->Ok_0@ == extensions_xml(self@),
    {
        let name = "md:Extensions";
        let no_attrs: Vec<(String, String)> = Vec::new();
        let start = match write_start(name, &no_attrs) {
            Ok(s) => s,
            Err(e) => return Err(e),
        };
        assert(start@ =~= extensions_start());
        let inner = match &self.ui_info {
            Some(u) => match u.to_xml() {
                Ok(s) => s,
                Err(e) => return Err(e),
            },
            None => String::new(),
        };
        let end = match write_end(name) {
            Ok(s) => s,
            Err(e) => return Err(e),
        };
        let out = start.concat(inner.as_str()).concat(end.as_str());
        assert(out@ =~= extensions_xml(self@));
        Ok(out)
    }
}

} // verus!
