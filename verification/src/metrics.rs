//! Metric groups: the closed set of observation families the service
//! publishes, each with its stable string identifier.

use vstd::prelude::*;

verus! {

/// One family of metrics.
#[derive(Clone, Copy, Debug, PartialEq, Eq, Hash, Structural)]
pub enum MetricGroup {
    /// Request counters.
    Requests,
    /// Error counters.
    Errors,
    /// Lag of the latest known checkpoint.
    CheckpointTimestampDelay,
    /// Duration of checkpoint-timestamp fetches.
    GetCheckpointTimestampDuration,
    /// Success status of checkpoint-timestamp fetches.
    GetCheckpointTimestampStatus,
    /// Success status of gas-price fetches.
    GetReferenceGasPriceStatus,
    /// Duration of policy checks.
    CheckPolicyDuration,
    /// Duration of package-lineage fetches.
    FetchPkgIdsDuration,
    /// Requests by how many identities they name.
    RequestsPerNumberOfIds,
}

impl MetricGroup {
    /// The identifier that the group's metrics are registered under.
    pub fn as_str(&self) -> (r: &'static str)
        ensures
            r@ == self.spec_tag(),
    {
        match self {
            MetricGroup::Requests => "requests",
            MetricGroup::Errors => "errors",
            MetricGroup::CheckpointTimestampDelay => "checkpoint_timestamp_delay",
            MetricGroup::GetCheckpointTimestampDuration => "get_checkpoint_timestamp_duration",
            MetricGroup::GetCheckpointTimestampStatus => "get_checkpoint_timestamp_status",
            MetricGroup::GetReferenceGasPriceStatus => "get_reference_gas_price_status",
            MetricGroup::CheckPolicyDuration => "check_policy_duration",
            MetricGroup::FetchPkgIdsDuration => "fetch_pkg_ids_duration",
            MetricGroup::RequestsPerNumberOfIds => "requests_per_number_of_ids",
        }
    }

    /// The identifier `as_str` returns for each group.
    pub open spec fn spec_tag(self) -> Seq<char> {
        match self {
            MetricGroup::Requests => "requests"@,
            MetricGroup::Errors => "errors"@,
            MetricGroup::CheckpointTimestampDelay => "checkpoint_timestamp_delay"@,
            MetricGroup::GetCheckpointTimestampDuration => "get_checkpoint_timestamp_duration"@,
            MetricGroup::GetCheckpointTimestampStatus => "get_checkpoint_timestamp_status"@,
            MetricGroup::GetReferenceGasPriceStatus => "get_reference_gas_price_status"@,
            MetricGroup::CheckPolicyDuration => "check_policy_duration"@,
            MetricGroup::FetchPkgIdsDuration => "fetch_pkg_ids_duration"@,
            MetricGroup::RequestsPerNumberOfIds => "requests_per_number_of_ids"@,
        }
    }
}

} // verus!
