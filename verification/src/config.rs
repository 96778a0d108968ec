//! Application configuration: which theme is set, and where the
//! configuration of each application lives under the caller's
//! configuration root. Reading and writing the file is the caller's;
//! the paths and the theme decision are pure.

use vstd::prelude::*;

use crate::text::bytes_eq;
use crate::theme::{theme_name_of, Theme};

verus! {

/// Which application a configuration belongs to.
#[derive(Clone, Copy, PartialEq, Eq, Structural, Debug)]
pub enum App {
    GlacierDiskInfo,
    GlacierDiskMark,
}

impl Default for App {
    fn default() -> (r: Self)
        ensures
            r == App::GlacierDiskInfo,
    {
        App::GlacierDiskInfo
    }
}

pub open spec fn app_label(a: App) -> Seq<char> {
    match a {
        App::GlacierDiskInfo => "glacierdiskinfo"@,
        App::GlacierDiskMark => "glacierdiskmark"@,
    }
}

impl App {
    /// The application's directory name.
    pub fn label(&self) -> (r: String)
        ensures
            r@ == app_label(*self),
    {
        match self {
            App::GlacierDiskInfo => String::from_str("glacierdiskinfo"),
            App::GlacierDiskMark => String::from_str("glacierdiskmark"),
        }
    }
}

/// One application's configuration: the theme it has set, by file
/// name, with "none" for no theme.
#[derive(Clone, Debug)]
pub struct Config {
    pub app: App,
    /// File name of the theme.
    pub theme: String,
}

impl Default for Config {
    /// The configuration of a fresh install: no theme name set.
    fn default() -> (r: Self)
        ensures
            r.app == App::GlacierDiskInfo,
            r.theme@ == Seq::<char>::empty(),
    {
        Config { app: App::GlacierDiskInfo, theme: String::new() }
    }
}

/// The configuration file of one application under the configuration
/// root the caller resolved.
pub fn config_file(app: &App, config_root: &str) -> (r: String)
    ensures
        r@ == config_root@ + "/"@ + app_label(*app) + "/config.toml"@,
{
    let s = String::from_str(config_root);
    let s = s.concat("/");
    let label = app.label();
    let s = s.concat(label.as_str());
    s.concat("/config.toml")
}

impl Config {
    /// The theme this configuration selects, resolved against the
    /// contents of its file — `None` for the explicit "none" theme and
    /// for a theme file that could not be read (`contents` is then
    /// `None`).
    pub fn get_theme(&self, contents: Option<&Vec<u8>>, themes_root: &str) -> (r: Option<Theme>)
        ensures
            match r {
                Some(t) => self.theme@ != "none"@ && (contents matches Some(c) && t.path@
                    == themes_root@ + "/"@ + self.theme@ && t.name@ == theme_name_of(
                    c@,
                    self.theme@,
                )),
                None => self.theme@ == "none"@ || contents is None,
            },
    {
        if bytes_eq(self.theme.as_str().as_bytes(), "none".as_bytes()) {
            proof {
                vstd::utf8::encode_utf8_decode_utf8(self.theme@);
                vstd::utf8::encode_utf8_decode_utf8("none"@);
            }
            return None;
        }
        proof {
            vstd::utf8::encode_utf8_decode_utf8(self.theme@);
            vstd::utf8::encode_utf8_decode_utf8("none"@);
        }
        match contents {
            Some(c) => Some(crate::theme::read_theme_data(self.theme.as_str(), c.as_slice(), themes_root)),
            None => None,
        }
    }
}

} // verus!
