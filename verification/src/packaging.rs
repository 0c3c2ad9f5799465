//! The decisions of the plugin packager: where a build goes, which cargo
//! flags it uses, and how the configuration directory is packed.
use vstd::prelude::*;

verus! {

/// The target triple plugins are built for.
pub const WASM_TARGET: &'static str = "wasm32-wasip2";

/// Where the packaged plugin is written.
#[derive(Debug, PartialEq, Eq)]
pub enum OutputTarget {
    /// The given path, taken relative to the plugin root (it starts with
    /// `..`).
    UnderRoot(String),
    /// The plugin root itself (the given path starts with `.`).
    Root,
    /// The given path as it stands.
    Given(String),
    /// No path was given: cargo's target directory.
    CargoTargetDir,
}

pub open spec fn starts_with_two_dots(s: Seq<char>) -> bool {
    s.len() >= 2 && s[0] == '.' && s[1] == '.'
}

impl OutputTarget {
    /// Chooses the output directory from the `--output` argument.
    pub fn from_argument(output: Option<String>) -> (r: OutputTarget)
        ensures
            match output {
                Some(o) => if starts_with_two_dots(o@) {
                    r matches OutputTarget::UnderRoot(p) && p@ == o@
                } else if o@.len() > 0 && o@[0] == '.' {
                    r is Root
                } else {
                    r matches OutputTarget::Given(p) && p@ == o@
                },
                None => r is CargoTargetDir,
            },
    {
        match output {
            Some(o) => {
                let len = o.as_str().unicode_len();
                if len >= 2 && o.as_str().get_char(0) == '.' && o.as_str().get_char(1) == '.' {
                    OutputTarget::UnderRoot(o)
                } else if len > 0 && o.as_str().get_char(0) == '.' {
                    OutputTarget::Root
                } else {
                    OutputTarget::Given(o)
                }
            },
            None => OutputTarget::CargoTargetDir,
        }
    }
}

/// The cargo profile directory of a build.
pub fn build_mode(is_release: bool) -> (r: &'static str)
    ensures
        r@ == (if is_release {
            "release"@
        } else {
            "debug"@
        }),
{
    if is_release {
        "release"
    } else {
        "debug"
    }
}

/// The paths a plugin build reads and writes.
pub struct BuildEnvironment {
    pub manifest: String,
    pub config: String,
    pub wasm: String,
    pub output: String,
    pub is_release: bool,
}

impl BuildEnvironment {
    /// The extra flag passed to `cargo build`: `--release` for a release
    /// build, none otherwise.
    pub fn cargo_flags(&self) -> (r: Option<&'static str>)
        ensures
            match r {
                Some(f) => self.is_release && f@ == "--release"@,
                None => !self.is_release,
            },
    {
        if self.is_release {
            Some("--release")
        } else {
            None
        }
    }
}

/// What is written to the package for an entry of the configuration
/// directory.
#[derive(Debug, Clone, Copy, PartialEq, Eq, Structural)]
pub enum ConfigEntry {
    /// A file, with its contents.
    File,
    /// A directory entry.
    Directory,
    /// Nothing: the configuration directory itself.
    Skip,
}

impl ConfigEntry {
    /// Files are packed with their contents; directories are recorded, except
    /// the root of the walk, whose relative name is empty.
    pub fn classify(is_file: bool, relative_name: &str) -> (r: ConfigEntry)
        ensures
            r == (if is_file {
                ConfigEntry::File
            } else if relative_name@.len() > 0 {
                ConfigEntry::Directory
            } else {
                ConfigEntry::Skip
            }),
    {
        if is_file {
            ConfigEntry::File
        } else if !relative_name.is_empty() {
            ConfigEntry::Directory
        } else {
            ConfigEntry::Skip
        }
    }
}

} // verus!
