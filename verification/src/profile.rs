//! The `[profile]` section of a manifest: how the package is compiled.

use vstd::prelude::*;
use crate::error::Error;
use crate::strmap::StrMap;

verus! {

/// What a free-form value holds, where it is a truth value, a whole number or a text.
#[derive(Debug, Clone, PartialEq, Eq)]
pub enum Scalar {
    Boolean(bool),
    Integer(i64),
    Text(String),
    /// Anything else: a date, a list, a table, a number with a fraction.
    Other,
}

/// Reads what a free-form value holds. This is `toml::Value` told apart by its
/// variants: of `Boolean`, `Integer` and `String` the content is handed on, every
/// other variant gives `Other`. Nothing is claimed of the result.
#[verifier::external_body]
fn scalar_of(v: &toml::Value) -> (s: Scalar) {
    match v {
        toml::Value::Boolean(b) => Scalar::Boolean(*b),
        toml::Value::Integer(n) => Scalar::Integer(*n),
        toml::Value::String(t) => Scalar::Text(t.clone()),
        toml::Value::Float(_) => Scalar::Other,
        toml::Value::Datetime(_) => Scalar::Other,
        toml::Value::Array(_) => Scalar::Other,
        toml::Value::Table(_) => Scalar::Other,
    }
}

/// How much is recorded for a debugger.
#[derive(Debug, Clone, Copy, PartialEq, Eq, PartialOrd, Ord, Structural)]
pub enum DebugSetting {
    /// `0` or `false`: nothing.
    Off,
    /// `1`: line tables only.
    Lines,
    /// `2` or `true`: everything.
    Full,
}

impl DebugSetting {
    /// The setting that a value stands for: a truth value, one of the numbers 0 to 2,
    /// or one of the names `none`, `limited`, `line-directives-only`,
    /// `line-tables-only`, `full`.
    pub open spec fn spec_from_scalar(s: Scalar) -> Result<DebugSetting, Error> {
        match s {
            Scalar::Boolean(b) => Ok(
                if b {
                    DebugSetting::Full
                } else {
                    DebugSetting::Off
                },
            ),
            Scalar::Integer(n) => if n == 0 {
                Ok(DebugSetting::Off)
            } else if n == 1 {
                Ok(DebugSetting::Lines)
            } else if n == 2 {
                Ok(DebugSetting::Full)
            } else {
                Err(Error::Other("wrong number for debug setting"))
            },
            Scalar::Text(t) => if t@ == "none"@ {
                Ok(DebugSetting::Off)
            } else if t@ == "limited"@ || t@ == "line-directives-only"@ || t@
                == "line-tables-only"@ {
                Ok(DebugSetting::Lines)
            } else if t@ == "full"@ {
                Ok(DebugSetting::Full)
            } else {
                Err(Error::Other("wrong name for debug setting"))
            },
            Scalar::Other => Err(Error::Other("wrong data type for debug setting")),
        }
    }

    /// The setting that a value stands for, or why it stands for none.
    pub fn from_scalar(s: &Scalar) -> (r: Result<DebugSetting, Error>)
        ensures
            r == Self::spec_from_scalar(*s),
    {
        match s {
            Scalar::Boolean(b) => Ok(
                if *b {
                    DebugSetting::Full
                } else {
                    DebugSetting::Off
                },
            ),
            Scalar::Integer(n) => match *n {
                0 => Ok(DebugSetting::Off),
                1 => Ok(DebugSetting::Lines),
                2 => Ok(DebugSetting::Full),
                _ => Err(Error::Other("wrong number for debug setting")),
            },
            Scalar::Text(t) => {
                let t = t.as_str();
                if crate::text::text_eq(t, "none") {
                    Ok(DebugSetting::Off)
                } else if crate::text::text_eq(t, "limited") || crate::text::text_eq(
                    t,
                    "line-directives-only",
                ) || crate::text::text_eq(t, "line-tables-only") {
                    Ok(DebugSetting::Lines)
                } else if crate::text::text_eq(t, "full") {
                    Ok(DebugSetting::Full)
                } else {
                    Err(Error::Other("wrong name for debug setting"))
                }
            },
            Scalar::Other => Err(Error::Other("wrong data type for debug setting")),
        }
    }

    /// The setting that a free-form value stands for: that of what the value holds.
    pub fn try_from(v: toml::Value) -> (r: Result<DebugSetting, Error>)
        ensures
            exists|s: Scalar| r == Self::spec_from_scalar(s),
    {
        let s = scalar_of(&v);
        Self::from_scalar(&s)
    }

    /// The value that the setting is written as: `false`, `1` or `true`.
    pub fn to_scalar(&self) -> (s: Scalar)
        ensures
            s == match self {
                DebugSetting::Off => Scalar::Boolean(false),
                DebugSetting::Lines => Scalar::Integer(1),
                DebugSetting::Full => Scalar::Boolean(true),
            },
    {
        match self {
            DebugSetting::Off => Scalar::Boolean(false),
            DebugSetting::Lines => Scalar::Integer(1),
            DebugSetting::Full => Scalar::Boolean(true),
        }
    }
}

/// What is taken out of the compiled program.
#[derive(Debug, Clone, Copy, PartialEq, Eq, PartialOrd, Ord, Structural)]
pub enum StripSetting {
    /// `false`: nothing.
    Off,
    /// What serves a debugger.
    Debuginfo,
    /// `true`: that and the names.
    Symbols,
}

impl StripSetting {
    /// The setting that a value stands for: a truth value, or one of the names `none`,
    /// `debuginfo`, `symbols`.
    pub open spec fn spec_from_scalar(s: Scalar) -> Result<StripSetting, Error> {
        match s {
            Scalar::Boolean(b) => Ok(
                if b {
                    StripSetting::Symbols
                } else {
                    StripSetting::Off
                },
            ),
            Scalar::Text(t) => if t@ == "none"@ {
                Ok(StripSetting::Off)
            } else if t@ == "debuginfo"@ {
                Ok(StripSetting::Debuginfo)
            } else if t@ == "symbols"@ {
                Ok(StripSetting::Symbols)
            } else {
                Err(Error::Other("strip setting has unknown string value"))
            },
            _ => Err(Error::Other("wrong data type for strip setting")),
        }
    }

    /// The setting that a value stands for, or why it stands for none.
    pub fn from_scalar(s: &Scalar) -> (r: Result<StripSetting, Error>)
        ensures
            r == Self::spec_from_scalar(*s),
    {
        match s {
            Scalar::Boolean(b) => Ok(
                if *b {
                    StripSetting::Symbols
                } else {
                    StripSetting::Off
                },
            ),
            Scalar::Text(t) => {
                let t = t.as_str();
                if crate::text::text_eq(t, "none") {
                    Ok(StripSetting::Off)
                } else if crate::text::text_eq(t, "debuginfo") {
                    Ok(StripSetting::Debuginfo)
                } else if crate::text::text_eq(t, "symbols") {
                    Ok(StripSetting::Symbols)
                } else {
                    Err(Error::Other("strip setting has unknown string value"))
                }
            },
            _ => Err(Error::Other("wrong data type for strip setting")),
        }
    }

    /// The setting that a free-form value stands for: that of what the value holds.
    pub fn try_from(v: toml::Value) -> (r: Result<StripSetting, Error>)
        ensures
            exists|s: Scalar| r == Self::spec_from_scalar(s),
    {
        let s = scalar_of(&v);
        Self::from_scalar(&s)
    }

    /// The value that the setting is written as: `false`, `debuginfo` or `true`.
    pub fn to_scalar(&self) -> (s: Scalar)
        ensures
            match self {
                StripSetting::Off => s == Scalar::Boolean(false),
                StripSetting::Debuginfo => s matches Scalar::Text(t) && t@ == "debuginfo"@,
                StripSetting::Symbols => s == Scalar::Boolean(true),
            },
    {
        match self {
            StripSetting::Off => Scalar::Boolean(false),
            StripSetting::Debuginfo => Scalar::Text("debuginfo".to_string()),
            StripSetting::Symbols => Scalar::Boolean(true),
        }
    }
}

/// How much is optimised when the parts of the program are put together.
#[derive(Debug, Clone, Copy, PartialEq, Eq, PartialOrd, Ord, Structural)]
pub enum LtoSetting {
    /// `off`: nothing.
    Off,
    /// `false`: within the package only.
    ThinLocal,
    /// `thin`
    Thin,
    /// `true`: everything.
    Fat,
}

impl LtoSetting {
    /// The setting that a value stands for: a truth value, or one of the names `off`,
    /// `n`, `no`, `thin`, `fat`, `on`, `y`, `yes`, `true`, `false`.
    pub open spec fn spec_from_scalar(s: Scalar) -> Result<LtoSetting, Error> {
        match s {
            Scalar::Boolean(b) => Ok(
                if b {
                    LtoSetting::Fat
                } else {
                    LtoSetting::ThinLocal
                },
            ),
            Scalar::Text(t) => if t@ == "off"@ || t@ == "n"@ || t@ == "no"@ {
                Ok(LtoSetting::Off)
            } else if t@ == "thin"@ {
                Ok(LtoSetting::Thin)
            } else if t@ == "fat"@ || t@ == "on"@ || t@ == "y"@ || t@ == "yes"@ || t@ == "true"@ {
                Ok(LtoSetting::Fat)
            } else if t@ == "false"@ {
                Ok(LtoSetting::ThinLocal)
            } else {
                Err(Error::Other("lto setting has unknown string value"))
            },
            _ => Err(Error::Other("wrong data type for lto setting")),
        }
    }

    /// The setting that a value stands for, or why it stands for none.
    pub fn from_scalar(s: &Scalar) -> (r: Result<LtoSetting, Error>)
        ensures
            r == Self::spec_from_scalar(*s),
    {
        match s {
            Scalar::Boolean(b) => Ok(
                if *b {
                    LtoSetting::Fat
                } else {
                    LtoSetting::ThinLocal
                },
            ),
            Scalar::Text(t) => {
                let t = t.as_str();
                if crate::text::text_eq(t, "off") || crate::text::text_eq(t, "n")
                    || crate::text::text_eq(t, "no") {
                    Ok(LtoSetting::Off)
                } else if crate::text::text_eq(t, "thin") {
                    Ok(LtoSetting::Thin)
                } else if crate::text::text_eq(t, "fat") || crate::text::text_eq(t, "on")
                    || crate::text::text_eq(t, "y") || crate::text::text_eq(t, "yes")
                    || crate::text::text_eq(t, "true") {
                    Ok(LtoSetting::Fat)
                } else if crate::text::text_eq(t, "false") {
                    Ok(LtoSetting::ThinLocal)
                } else {
                    Err(Error::Other("lto setting has unknown string value"))
                }
            },
            _ => Err(Error::Other("wrong data type for lto setting")),
        }
    }

    /// The setting that a free-form value stands for: that of what the value holds.
    pub fn try_from(v: toml::Value) -> (r: Result<LtoSetting, Error>)
        ensures
            exists|s: Scalar| r == Self::spec_from_scalar(s),
    {
        let s = scalar_of(&v);
        Self::from_scalar(&s)
    }

    /// The value that the setting is written as: `off`, `false`, `thin` or `true`.
    pub fn to_scalar(&self) -> (s: Scalar)
        ensures
            match self {
                LtoSetting::Off => s matches Scalar::Text(t) && t@ == "off"@,
                LtoSetting::ThinLocal => s == Scalar::Boolean(false),
                LtoSetting::Thin => s matches Scalar::Text(t) && t@ == "thin"@,
                LtoSetting::Fat => s == Scalar::Boolean(true),
            },
    {
        match self {
            LtoSetting::Off => Scalar::Text("off".to_string()),
            LtoSetting::ThinLocal => Scalar::Boolean(false),
            LtoSetting::Thin => Scalar::Text("thin".to_string()),
            LtoSetting::Fat => Scalar::Boolean(true),
        }
    }
}

/// The settings of one profile.
#[derive(Debug, Clone, PartialEq)]
pub struct Profile {
    /// A number, or `s` or `z`.
    pub opt_level: Option<toml::Value>,
    pub debug: Option<DebugSetting>,
    pub split_debuginfo: Option<String>,
    pub rpath: Option<bool>,
    pub lto: Option<LtoSetting>,
    pub debug_assertions: Option<bool>,
    pub codegen_units: Option<u16>,
    pub panic: Option<String>,
    pub incremental: Option<bool>,
    pub overflow_checks: Option<bool>,
    pub strip: Option<StripSetting>,
    /// Other settings for single dependencies.
    pub package: StrMap<toml::Value>,
    /// Other settings for build scripts.
    pub build_override: Option<toml::Value>,
    /// The profile that settings not made here are taken from.
    pub inherits: Option<String>,
}

/// The `[profile]` section.
#[derive(Debug, Clone, PartialEq)]
pub struct Profiles {
    pub release: Option<Profile>,
    pub dev: Option<Profile>,
    pub test: Option<Profile>,
    pub bench: Option<Profile>,
    pub doc: Option<Profile>,
    /// Profiles under names of the manifest's own.
    pub custom: StrMap<Profile>,
}

impl Default for Profiles {
    fn default() -> (r: Self)
        ensures
            r.spec_is_blank(),
    {
        Profiles {
            release: None,
            dev: None,
            test: None,
            bench: None,
            doc: None,
            custom: StrMap::new(),
        }
    }
}

impl Profiles {
    /// Whether the section holds no profile.
    pub open spec fn spec_is_blank(&self) -> bool {
        &&& self.release is None
        &&& self.dev is None
        &&& self.test is None
        &&& self.bench is None
        &&& self.doc is None
        &&& self.custom@.dom() == Set::<Seq<char>>::empty()
    }

    /// Whether the section need not be written out: it holds nothing.
    pub fn should_skip_serializing(&self) -> (b: bool)
        ensures
            b == self.spec_is_blank(),
    {
        self.release.is_none() && self.dev.is_none() && self.test.is_none() && self.bench.is_none()
            && self.doc.is_none() && self.custom.is_empty()
    }
}

} // verus!
