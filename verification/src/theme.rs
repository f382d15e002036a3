//! Colour theme of the dashboard header. Themes are not configurable yet:
//! loading one from a file yields the built-in theme whatever the file
//! holds.

use vstd::prelude::*;

verus! {

/// Style of the header bar.
pub struct HeaderStyle {
    pub background: String,
    pub foreground: String,
}

/// The dashboard's colour theme.
pub struct Theme {
    pub header: HeaderStyle,
}

impl Theme {
    /// Load a theme; the file is not read yet, so every path yields the
    /// built-in theme with empty colour names.
    pub fn from_file(_file: &str) -> (r: Result<Theme, crate::settings::SettingsError>)
        ensures
            r is Ok,
            r matches Ok(t) ==> t.header.background@.len() == 0 && t.header.foreground@.len()
                == 0,
    {
        Ok(Theme { header: HeaderStyle { background: String::new(), foreground: String::new() } })
    }
}

} // verus!
