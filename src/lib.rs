//! Rendering of the SAML metadata user-interface extension (`mdui:UIInfo`)
//! and its `md:Extensions` wrapper as XML fragments.
pub mod extensions;
pub mod localized;
pub mod ui_info;
pub mod xml;

pub use extensions::Extensions;
pub use localized::LocalizedString;
pub use ui_info::{Logo, UiInfo};
pub use xml::EncodingError;
