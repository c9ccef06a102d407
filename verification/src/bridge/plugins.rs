//! Targets of the telemetry.

use super::maple::{maple_new, CredentialFile, MapleOptions, MaplePlugin};
use super::standard::{standard_new, StandardPlugin};
use crate::schema::Attributes;
use crate::text::same;
use vstd::prelude::*;

verus! {

/// The settings of all targets.
pub struct TargetOptions {
    pub maple: MapleOptions,
}

impl Default for TargetOptions {
    /// Nothing is set.
    fn default() -> (r: Self)
        ensures
            r.maple.credential is None,
            r.maple.credential_schema is None,
            r.maple.producer is None,
    {
        TargetOptions { maple: MapleOptions::default() }
    }
}

/// The protocol of an export.
#[derive(Clone, Copy, Debug, Eq, PartialEq, Structural)]
pub enum OtlpProtocol {
    HttpProtobuf,
}

/// Where and how to export.
pub struct PreparedOtlpTarget {
    pub plugin_name: &'static str,
    pub protocol: OtlpProtocol,
    pub metrics_endpoint: Option<String>,
    pub logs_endpoint: Option<String>,
    pub headers: Attributes,
    pub diagnostics: Attributes,
}

/// The content of a [`PreparedOtlpTarget`].
#[verifier::ext_equal]
pub struct Target {
    pub plugin_name: Seq<char>,
    pub protocol: OtlpProtocol,
    pub metrics_endpoint: Option<Seq<char>>,
    pub logs_endpoint: Option<Seq<char>>,
    pub headers: Map<Seq<char>, Seq<char>>,
    pub diagnostics: Map<Seq<char>, Seq<char>>,
}

impl View for PreparedOtlpTarget {
    type V = Target;

    open spec fn view(&self) -> Target {
        Target {
            plugin_name: self.plugin_name@,
            protocol: self.protocol,
            metrics_endpoint: crate::text::optional(self.metrics_endpoint),
            logs_endpoint: crate::text::optional(self.logs_endpoint),
            headers: self.headers@,
            diagnostics: self.diagnostics@,
        }
    }
}

/// Why a target is refused.
#[derive(Clone, Copy, Debug, Eq, PartialEq, Structural)]
pub enum TargetError {
    /// There is no target of that name.
    UnknownPlugin,
    /// Settings of another target are given.
    ForeignSettings,
    CredentialMissing,
    SchemaMissing,
    ProducerMissing,
    /// The environment overrides what the credential decides.
    Overridden,
    PathNotAbsolute,
    ParentNotInspected,
    ParentNotADirectory,
    ParentNotRootControlled,
    NotRead,
    NotARegularFile,
    NotOwnedByRoot,
    WrongMode,
    WrongSize,
    TooLarge,
    NotDecoded,
    WrongSchema,
    WrongProducer,
    WrongEndpoint,
    WrongProtocol,
    WrongUsername,
    WrongPassword,
}

/// What a target is prepared from.
pub struct Preparation {
    /// The names of the environment variables that are set.
    pub environment: Vec<String>,
    /// What was found at the path of the credential.
    pub credential: CredentialFile,
}

/// The content of a prepared target.
pub open spec fn target_view(r: Result<PreparedOtlpTarget, TargetError>) -> Result<
    Target,
    TargetError,
> {
    match r {
        Ok(t) => Ok(t@),
        Err(e) => Err(e),
    }
}

/// A target of the telemetry.
pub trait OtlpTargetPlugin {
    /// The name of the target.
    spec fn plugin_name(&self) -> Seq<char>;

    /// Where and how the target is exported to.
    spec fn prepared(&self, given: Preparation) -> Result<Target, TargetError>;

    fn name(&self) -> (r: &'static str)
        ensures
            r@ == self.plugin_name(),
    ;

    fn prepare(&self, given: &Preparation) -> (r: Result<PreparedOtlpTarget, TargetError>)
        ensures
            target_view(r) == self.prepared(*given),
    ;
}

/// One of the targets.
pub enum SelectedPlugin<'a> {
    Standard(StandardPlugin),
    Maple(MaplePlugin<'a>),
}

impl<'a> OtlpTargetPlugin for SelectedPlugin<'a> {
    open spec fn plugin_name(&self) -> Seq<char> {
        match *self {
            SelectedPlugin::Standard(p) => p.plugin_name(),
            SelectedPlugin::Maple(p) => p.plugin_name(),
        }
    }

    open spec fn prepared(&self, given: Preparation) -> Result<Target, TargetError> {
        match *self {
            SelectedPlugin::Standard(p) => p.prepared(given),
            SelectedPlugin::Maple(p) => p.prepared(given),
        }
    }

    fn name(&self) -> (r: &'static str) {
        match self {
            SelectedPlugin::Standard(p) => p.name(),
            SelectedPlugin::Maple(p) => p.name(),
        }
    }

    fn prepare(&self, given: &Preparation) -> (r: Result<PreparedOtlpTarget, TargetError>) {
        match self {
            SelectedPlugin::Standard(p) => p.prepare(given),
            SelectedPlugin::Maple(p) => p.prepare(given),
        }
    }
}

/// Selects a target by its name.
pub fn select<'a>(name: &str, options: &'a TargetOptions) -> (r: Result<
    SelectedPlugin<'a>,
    TargetError,
>)
    ensures
        if name@ == "standard"@ {
            match standard_new(*options) {
                None => r matches Ok(SelectedPlugin::Standard(_)),
                Some(e) => r matches Err(x) && x == e,
            }
        } else if name@ == "maple"@ {
            match maple_new(options.maple) {
                Ok(settings) => r matches Ok(SelectedPlugin::Maple(p)) && p@ == settings,
                Err(e) => r matches Err(x) && x == e,
            }
        } else {
            r matches Err(x) && x == TargetError::UnknownPlugin
        },
{
    if same(name, "standard") {
        match StandardPlugin::new(options) {
            Ok(p) => Ok(SelectedPlugin::Standard(p)),
            Err(e) => Err(e),
        }
    } else if same(name, "maple") {
        match MaplePlugin::new(&options.maple) {
            Ok(p) => Ok(SelectedPlugin::Maple(p)),
            Err(e) => Err(e),
        }
    } else {
        Err(TargetError::UnknownPlugin)
    }
}

} // verus!
