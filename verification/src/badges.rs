//! The `[badges]` section of a manifest.

use vstd::prelude::*;

verus! {

/// One badge.
#[derive(Debug, Clone, PartialEq, Eq)]
pub struct Badge {
    pub repository: String,
    /// The branch, `master` where the manifest names none.
    pub branch: String,
    pub service: Option<String>,
    pub id: Option<String>,
    pub project_name: Option<String>,
}

/// How a package is looked after.
#[derive(Debug, PartialEq, Eq, Copy, Clone, Hash, Structural)]
pub enum MaintenanceStatus {
    /// Nothing is said; no badge is shown.
    Unset,
    ActivelyDeveloped,
    PassivelyMaintained,
    AsIs,
    Experimental,
    LookingForMaintainer,
    Deprecated,
}

impl Default for MaintenanceStatus {
    fn default() -> (r: Self)
        ensures
            r == MaintenanceStatus::Unset,
    {
        MaintenanceStatus::Unset
    }
}

/// The badge that says how a package is looked after.
#[derive(Debug, PartialEq, Eq, Copy, Clone, Structural)]
pub struct Maintenance {
    pub status: MaintenanceStatus,
}

impl Default for Maintenance {
    fn default() -> (r: Self)
        ensures
            r.status == MaintenanceStatus::Unset,
    {
        Maintenance { status: MaintenanceStatus::Unset }
    }
}

/// The `[badges]` section.
#[derive(Debug, Clone, PartialEq, Eq)]
pub struct Badges {
    pub appveyor: Option<Badge>,
    pub circle_ci: Option<Badge>,
    pub gitlab: Option<Badge>,
    pub travis_ci: Option<Badge>,
    pub codecov: Option<Badge>,
    pub coveralls: Option<Badge>,
    pub is_it_maintained_issue_resolution: Option<Badge>,
    pub is_it_maintained_open_issues: Option<Badge>,
    pub maintenance: Maintenance,
}

impl Default for Badges {
    fn default() -> (r: Self)
        ensures
            r.spec_is_blank(),
    {
        Badges {
            appveyor: None,
            circle_ci: None,
            gitlab: None,
            travis_ci: None,
            codecov: None,
            coveralls: None,
            is_it_maintained_issue_resolution: None,
            is_it_maintained_open_issues: None,
            maintenance: Maintenance { status: MaintenanceStatus::Unset },
        }
    }
}

impl Badges {
    /// Whether the section holds no badge and says nothing of how the package is
    /// looked after.
    pub open spec fn spec_is_blank(&self) -> bool {
        &&& self.appveyor is None
        &&& self.circle_ci is None
        &&& self.gitlab is None
        &&& self.travis_ci is None
        &&& self.codecov is None
        &&& self.coveralls is None
        &&& self.is_it_maintained_issue_resolution is None
        &&& self.is_it_maintained_open_issues is None
        &&& self.maintenance.status == MaintenanceStatus::Unset
    }

    /// Whether the section need not be written out: it holds nothing.
    pub fn should_skip_serializing(&self) -> (b: bool)
        ensures
            b == self.spec_is_blank(),
    {
        self.appveyor.is_none() && self.circle_ci.is_none() && self.gitlab.is_none()
            && self.travis_ci.is_none() && self.codecov.is_none() && self.coveralls.is_none()
            && self.is_it_maintained_issue_resolution.is_none()
            && self.is_it_maintained_open_issues.is_none() && matches!(
            self.maintenance.status,
            MaintenanceStatus::Unset
        )
    }
}

} // verus!
