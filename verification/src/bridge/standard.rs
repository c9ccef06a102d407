//! A target that leaves everything to the exporters.

use super::maple::is_maple_configured;
use super::plugins::{
    OtlpProtocol, OtlpTargetPlugin, Preparation, PreparedOtlpTarget, Target, TargetError,
    TargetOptions,
};
use crate::table::Table;
use vstd::prelude::*;

verus! {

/// The target of a conventional collector.
pub struct StandardPlugin;

/// What is wrong with the settings.
pub open spec fn standard_new(options: TargetOptions) -> Option<TargetError> {
    if is_maple_configured(options.maple) {
        Some(TargetError::ForeignSettings)
    } else {
        None
    }
}

impl StandardPlugin {
    pub fn new(options: &TargetOptions) -> (r: Result<Self, TargetError>)
        ensures
            match standard_new(*options) {
                None => r is Ok,
                Some(e) => r matches Err(x) && x == e,
            },
    {
        if options.maple.is_configured() {
            return Err(TargetError::ForeignSettings);
        }
        Ok(StandardPlugin)
    }
}

/// Nothing is overridden.
pub open spec fn standard_target() -> Target {
    Target {
        plugin_name: "standard"@,
        protocol: OtlpProtocol::HttpProtobuf,
        metrics_endpoint: None,
        logs_endpoint: None,
        headers: Map::empty(),
        diagnostics: Map::empty(),
    }
}

impl OtlpTargetPlugin for StandardPlugin {
    open spec fn plugin_name(&self) -> Seq<char> {
        "standard"@
    }

    open spec fn prepared(&self, given: Preparation) -> Result<Target, TargetError> {
        Ok(standard_target())
    }

    fn name(&self) -> (r: &'static str) {
        "standard"
    }

    fn prepare(&self, given: &Preparation) -> (r: Result<PreparedOtlpTarget, TargetError>) {
        Ok(
            PreparedOtlpTarget {
                plugin_name: self.name(),
                protocol: OtlpProtocol::HttpProtobuf,
                metrics_endpoint: None,
                logs_endpoint: None,
                headers: Table::new(),
                diagnostics: Table::new(),
            },
        )
    }
}

} // verus!
