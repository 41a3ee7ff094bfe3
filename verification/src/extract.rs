//! The extraction orchestrator's decisions and its error taxonomy.
//!
//! Extraction proceeds in steps: detect the family, resolve the storage
//! location, parse. Every failure is terminal and typed; the embedding
//! binary only performs the I/O each planned step calls for and maps its
//! outcome back into these types.

use vstd::prelude::*;
use vstd::string::StringExecFns;
use crate::browser::Browser;
use crate::browser::chromium_suffix;
use crate::browser::opt_string_view;
use crate::gecko::find_profile_path;
use crate::gecko::profile_path_spec;

verus! {

/// A typed extraction failure.
#[derive(Debug, Clone)]
pub enum ExtractError {
    /// No recognizable default browser.
    DetectionFailed,
    /// The bookmark path could not be determined (home directory unknown).
    PathUnresolved,
    /// The Gecko profile could not be found (home or registry or `Path=` missing).
    ProfileNotFound,
    /// The expected storage file is absent; carries the expected path.
    FileNotFound(String),
    /// A file could not be read or copied.
    IoError,
    /// The bookmark file is not valid JSON.
    ParseError,
    /// The bookmark store could not be opened or queried.
    StoreError,
}

/// The model of a failure.
pub enum ErrorModel {
    DetectionFailed,
    PathUnresolved,
    ProfileNotFound,
    FileNotFound(Seq<char>),
    IoError,
    ParseError,
    StoreError,
}

impl View for ExtractError {
    type V = ErrorModel;

    open spec fn view(&self) -> ErrorModel {
        match self {
            ExtractError::DetectionFailed => ErrorModel::DetectionFailed,
            ExtractError::PathUnresolved => ErrorModel::PathUnresolved,
            ExtractError::ProfileNotFound => ErrorModel::ProfileNotFound,
            ExtractError::FileNotFound(p) => ErrorModel::FileNotFound(p@),
            ExtractError::IoError => ErrorModel::IoError,
            ExtractError::ParseError => ErrorModel::ParseError,
            ExtractError::StoreError => ErrorModel::StoreError,
        }
    }
}

/// The diagnostic text of a failure, with the offending path where one applies.
pub open spec fn message_spec(e: ErrorModel) -> Seq<char> {
    match e {
        ErrorModel::DetectionFailed => "could not detect browser"@,
        ErrorModel::PathUnresolved => "could not determine bookmark path"@,
        ErrorModel::ProfileNotFound => "could not find profile"@,
        ErrorModel::FileNotFound(p) => "bookmark file not found at "@ + p,
        ErrorModel::IoError => "could not read bookmark data"@,
        ErrorModel::ParseError => "could not parse bookmark file"@,
        ErrorModel::StoreError => "could not read bookmark store"@,
    }
}

impl ExtractError {
    /// The human-readable diagnostic message.
    pub fn message(&self) -> (m: String)
        ensures
            m@ == message_spec(self@),
    {
        match self {
            ExtractError::DetectionFailed => String::from_str("could not detect browser"),
            ExtractError::PathUnresolved => String::from_str("could not determine bookmark path"),
            ExtractError::ProfileNotFound => String::from_str("could not find profile"),
            ExtractError::FileNotFound(p) => {
                let mut m = String::from_str("bookmark file not found at ");
                m.append(p.as_str());
                m
            },
            ExtractError::IoError => String::from_str("could not read bookmark data"),
            ExtractError::ParseError => String::from_str("could not parse bookmark file"),
            ExtractError::StoreError => String::from_str("could not read bookmark store"),
        }
    }
}

/// The next step of an extraction attempt.
pub enum ExtractPlan {
    /// Read and parse the Chromium bookmark file at `path`.
    Chromium { path: String },
    /// Look for a Gecko profile under the registry directory.
    Gecko { registry: String },
    /// Extraction already failed.
    Fail { error: ExtractError },
}

/// The model of a plan.
pub enum PlanModel {
    Chromium(Seq<char>),
    Gecko(Seq<char>),
    Fail(ErrorModel),
}

impl View for ExtractPlan {
    type V = PlanModel;

    open spec fn view(&self) -> PlanModel {
        match self {
            ExtractPlan::Chromium { path } => PlanModel::Chromium(path@),
            ExtractPlan::Gecko { registry } => PlanModel::Gecko(registry@),
            ExtractPlan::Fail { error } => PlanModel::Fail(error@),
        }
    }
}

/// The profile-registry directory suffix under the home directory, for the
/// Gecko-family browsers.
pub open spec fn registry_suffix(b: Browser) -> Seq<char> {
    match b {
        Browser::Zen => "/.zen"@,
        Browser::Firefox => "/.mozilla/firefox"@,
        _ => Seq::empty(),
    }
}

/// What the orchestrator does for a detected family and an optional home
/// directory: an unknown family fails at once; a Chromium family names its
/// fixed bookmark file; a Gecko family names its profile registry; a
/// missing home directory fails the resolution.
pub open spec fn plan_spec(b: Browser, home: Option<Seq<char>>) -> PlanModel {
    match b {
        Browser::Unknown => PlanModel::Fail(ErrorModel::DetectionFailed),
        Browser::Chrome | Browser::Brave | Browser::Edge => match home {
            None => PlanModel::Fail(ErrorModel::PathUnresolved),
            Some(h) => PlanModel::Chromium(h + chromium_suffix(b)),
        },
        Browser::Firefox | Browser::Zen => match home {
            None => PlanModel::Fail(ErrorModel::ProfileNotFound),
            Some(h) => PlanModel::Gecko(h + registry_suffix(b)),
        },
    }
}

/// An unknown identity fails with the detection error and plans no parsing,
/// whatever the home directory holds.
pub proof fn lemma_unknown_fails(home: Option<Seq<char>>)
    ensures
        plan_spec(Browser::Unknown, home) == PlanModel::Fail(ErrorModel::DetectionFailed),
{
}

/// Decides the next extraction step from the detected family and the
/// home-directory value.
pub fn plan_extraction(b: &Browser, home: Option<&String>) -> (r: ExtractPlan)
    ensures
        r@ == plan_spec(*b, opt_string_view(home)),
{
    match *b {
        Browser::Unknown => ExtractPlan::Fail { error: ExtractError::DetectionFailed },
        Browser::Chrome | Browser::Brave | Browser::Edge => match b.bookmark_path(home) {
            Some(p) => ExtractPlan::Chromium { path: p },
            None => ExtractPlan::Fail { error: ExtractError::PathUnresolved },
        },
        Browser::Firefox | Browser::Zen => match home {
            None => ExtractPlan::Fail { error: ExtractError::ProfileNotFound },
            Some(h) => {
                let mut reg = h.clone();
                if matches!(b, Browser::Zen) {
                    reg.append("/.zen");
                } else {
                    reg.append("/.mozilla/firefox");
                }
                ExtractPlan::Gecko { registry: reg }
            },
        },
    }
}

/// Resolves the active profile directory from the registry directory and
/// the registry file's content; `None` content stands for a missing or
/// unreadable registry file.
pub fn resolve_profile(registry: &str, ini: Option<&String>) -> (r: Result<
    String,
    ExtractError,
>)
    ensures
        ini is None ==> (r matches Err(e) && e@ == ErrorModel::ProfileNotFound),
        ini matches Some(c) ==> match profile_path_spec(c@, registry@) {
            Some(p) => r matches Ok(q) && q@ == p,
            None => r matches Err(e) && e@ == ErrorModel::ProfileNotFound,
        },
{
    match ini {
        None => Err(ExtractError::ProfileNotFound),
        Some(c) => match find_profile_path(c.as_str(), registry) {
            Some(p) => Ok(p),
            None => Err(ExtractError::ProfileNotFound),
        },
    }
}

} // verus!
