//! Data types for package manifests and a resolver for their feature graphs.

pub mod afs;
pub mod badges;
pub mod defaults;
pub mod dependency;
pub mod discover;
pub mod error;
pub mod features;
pub mod inherit;
pub mod inheritable;
pub mod lints;
pub mod manifest;
pub mod order;
pub mod package;
pub mod product;
pub mod profile;
pub mod strmap;
pub mod strset;
pub mod text;
pub mod value;

pub use crate::afs::Filesystem;
pub use crate::badges::{Badge, Badges, Maintenance, MaintenanceStatus};
pub use crate::defaults::{default_master, default_true, default_version, is_default, is_false, is_true};
pub use crate::dependency::{Dependency, DependencyDetail, InheritedDependencyDetail};
pub use crate::discover::Listing;
pub use crate::error::{Error, IoError, IoErrorKind, ParseError};
pub use crate::inherit::inherit_dependencies;
pub use crate::inheritable::Inheritable;
pub use crate::lints::{Lint, LintGroups, LintLevel, LintSet, Lints};
pub use crate::manifest::{DepsSet, FeatureSet, Manifest, PackageTemplate, PatchSet, Target, TargetDepsSet, Workspace};
pub use crate::package::{Edition, OptionalFile, Package, Publish, Resolver};
pub use crate::product::Product;
pub use crate::profile::{DebugSetting, LtoSetting, Profile, Profiles, Scalar, StripSetting};
pub use crate::strmap::StrMap;
pub use crate::strset::StrSet;
pub use toml::Value;
