use crate::account::{AccountData, FundedAccount};
use crate::emitter::{EmissionJobHandle, JobStats, StopReason};
use crate::instance::Instance;
use vstd::prelude::*;

verus! {

/// Fatal setup-class failures: there is no degraded mode for transaction
/// emission without a reachable fleet, a funded account and a validated
/// trust anchor, so any of these aborts the orchestrator.
#[derive(Clone, Copy, Debug, PartialEq, Eq)]
pub enum SetupError {
    /// Fleet discovery found no instance to submit against.
    NoReachableInstance,
    /// No funded account could be obtained from the fleet.
    NoFundedAccount,
    /// No trust waypoint could be established from the ledger.
    TrustEstablishmentFailed,
}

/// The fields of the latest epoch-change ledger record that the driver
/// reads; the record itself is produced and validated by the node client.
#[derive(Clone, Copy, Debug, PartialEq, Eq)]
pub struct LedgerRecord {
    pub epoch: u64,
    pub timestamp_usecs: u64,
}

/// The outcome of a waypoint retrieval, decided from the boundary's query
/// results.
#[derive(Clone, Copy, Debug, PartialEq, Eq)]
pub enum WaypointReport {
    /// The connection check against the node failed.
    ConnectionFailed,
    /// The node holds no epoch-change ledger record yet.
    NoEpochChangeRecord,
    /// A record exists but no waypoint could be derived from it.
    DerivationFailed,
    /// A waypoint was derived from the record's end of epoch.
    Derived { epoch: u64, timestamp_usecs: u64 },
}

/// Decide the outcome of a waypoint retrieval: `connection_ok` is the node
/// connection check, `record` the latest epoch-change ledger record the node
/// returned, and `derived_ok` whether the trust anchor could be derived from
/// that record.
pub fn waypoint_report(connection_ok: bool, record: Option<LedgerRecord>, derived_ok: bool) -> (r:
    WaypointReport)
    ensures
        !connection_ok ==> r is ConnectionFailed,
        connection_ok && record is None ==> r is NoEpochChangeRecord,
        connection_ok && record is Some && !derived_ok ==> r is DerivationFailed,
        connection_ok && record is Some && derived_ok ==> r == (WaypointReport::Derived {
            epoch: record->Some_0.epoch,
            timestamp_usecs: record->Some_0.timestamp_usecs,
        }),
{
    if !connection_ok {
        WaypointReport::ConnectionFailed
    } else {
        match record {
            None => WaypointReport::NoEpochChangeRecord,
            Some(rec) => {
                if derived_ok {
                    WaypointReport::Derived {
                        epoch: rec.epoch,
                        timestamp_usecs: rec.timestamp_usecs,
                    }
                } else {
                    WaypointReport::DerivationFailed
                }
            },
        }
    }
}

/// The log verbosity the process starts with: an explicitly supplied value
/// wins; with none set, the default is "info". The environment lookup itself
/// happens once at the process boundary.
pub fn log_level(env_value: Option<String>) -> (r: String)
    ensures
        match env_value {
            Some(v) => r@ == v@,
            None => r@ == "info"@,
        },
{
    match env_value {
        Some(v) => v,
        None => "info".to_owned(),
    }
}

/// Owns the composition: the discovered fleet, the funded account obtained
/// from it, and the emission job's lifecycle. Built only once fleet
/// discovery, account funding and trust establishment all succeeded.
pub struct ClusterTestRunner {
    pub instances: Vec<Instance>,
    pub account: AccountData,
    pub job: EmissionJobHandle,
}

impl ClusterTestRunner {
    /// Compose the runner from the boundary's findings: the discovered fleet,
    /// the funded-account query outcome, and whether a trust waypoint was
    /// established. Fails, in this order of precedence, when the fleet is
    /// empty, when no funded account was found, and when no waypoint could be
    /// established; each failure is fatal and mutates nothing.
    pub fn setup(
        instances: Vec<Instance>,
        funding: Option<FundedAccount>,
        waypoint_ok: bool,
    ) -> (r: Result<ClusterTestRunner, SetupError>)
        ensures
            r is Ok <==> instances@.len() > 0 && funding is Some && waypoint_ok,
            instances@.len() == 0 ==> r->Err_0 is NoReachableInstance,
            instances@.len() > 0 && funding is None ==> r->Err_0 is NoFundedAccount,
            instances@.len() > 0 && funding is Some && !waypoint_ok ==> r->Err_0
                is TrustEstablishmentFailed,
            r matches Ok(runner) ==> ({
                &&& runner.instances@ == instances@
                &&& runner.account.address@ == funding->Some_0.address@
                &&& runner.account.signing_key@ == funding->Some_0.signing_key@
                &&& runner.account.sequence_number == funding->Some_0.sequence_number
                &&& runner.job.wf()
                &&& runner.job.state is Idle
            }),
    {
        if instances.len() == 0 {
            return Err(SetupError::NoReachableInstance);
        }
        let account = match AccountData::load_or_create(funding) {
            Ok(a) => a,
            Err(_) => {
                return Err(SetupError::NoFundedAccount);
            },
        };
        if !waypoint_ok {
            return Err(SetupError::TrustEstablishmentFailed);
        }
        Ok(ClusterTestRunner { instances, account, job: EmissionJobHandle::new() })
    }

    /// Start the emission job.
    pub fn start_job(&mut self)
        requires
            old(self).job.wf(),
            old(self).job.state is Idle,
        ensures
            final(self).job.wf(),
            final(self).job.state is Running,
            final(self).job.stats == old(self).job.stats,
            final(self).job.stop_reason is None,
            final(self).instances == old(self).instances,
            final(self).account == old(self).account,
    {
        self.job.start();
    }

    /// Ask the running job to stop, on an elapsed duration or a signal.
    pub fn stop_job(&mut self, reason: StopReason)
        requires
            old(self).job.wf(),
            old(self).job.state is Running,
        ensures
            final(self).job.wf(),
            final(self).job.state is Stopping,
            final(self).job.stop_reason == Some(reason),
            final(self).job.stats == old(self).job.stats,
            final(self).job.in_flight == old(self).job.in_flight,
            final(self).instances == old(self).instances,
            final(self).account == old(self).account,
    {
        self.job.request_stop(reason);
    }

    /// The aggregate of the completed job.
    pub fn job_report(&self) -> (r: JobStats)
        requires
            self.job.state is Stopped,
        ensures
            r == self.job.stats,
    {
        self.job.report()
    }
}

} // verus!
