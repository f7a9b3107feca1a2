//! Application settings: what the user configured, and the scoped accessors
//! through which the rest of the program reads and changes it.

use vstd::prelude::*;

verus! {

/// Top-level settings object.
///
/// Each object stored within it is kept in a separate section of the settings
/// file.
pub struct Settings {
    /// General program configuration.
    pub program: Program,
    /// Paths used by the application.
    pub paths: Paths,
}

/// General program configuration.
pub struct Program {
    /// Whether or not to start the program automatically when the user logs in.
    pub auto_start: bool,
}

/// Container for paths used by the application.
pub struct Paths {
    /// Where captured screenshots are saved.
    pub screenshots: String,
}

impl Default for Program {
    fn default() -> (r: Self)
        ensures
            !r.auto_start,
    {
        Program { auto_start: false }
    }
}

impl Settings {
    /// Calls `f` with the settings, so that application code can apply them
    /// by copying values out.
    pub fn read<F: FnOnce(&Settings)>(&self, f: F)
        requires
            f.requires((self,)),
        ensures
            f.ensures((self,), ()),
    {
        f(self)
    }

    /// Hands the settings to `f` to change them, and keeps what `f` returns;
    /// the caller stores the whole object once this returns.
    pub fn write<F: FnOnce(Settings) -> Settings>(&mut self, f: F)
        requires
            f.requires((*old(self),)),
        ensures
            f.ensures((*old(self),), *final(self)),
    {
        let mut current = Settings {
            program: Program { auto_start: false },
            paths: Paths { screenshots: String::new() },
        };
        std::mem::swap(self, &mut current);
        *self = f(current);
    }
}

} // verus!
