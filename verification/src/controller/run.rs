//! What is installed before the controllers start.

use crate::k8s::{ApiService, ObjectMeta};
use crate::text::opt_view;
use vstd::prelude::*;

verus! {

/// How an object is installed.
#[derive(Debug)]
pub enum InstallStep {
    /// It is created.
    Create,
    /// It replaces the one that exists, of this version.
    Replace { resource_version: Option<String> },
}

/// How an object is installed, given the metadata of the one that exists. One that
/// could not be read is taken not to exist.
pub fn install_step(existing: Option<ObjectMeta>) -> (r: InstallStep)
    ensures
        match existing {
            Some(metadata) => r matches InstallStep::Replace { resource_version }
                && resource_version == metadata.resource_version,
            None => r is Create,
        },
{
    match existing {
        Some(metadata) => InstallStep::Replace { resource_version: metadata.resource_version },
        None => InstallStep::Create,
    }
}

/// Whether the start goes on: an object that exists need not be replaced, but one that
/// does not must be created.
pub fn may_go_on(step: &InstallStep, done: bool) -> (r: bool)
    ensures
        r == (done || !(*step is Create)),
{
    match step {
        InstallStep::Create => done,
        InstallStep::Replace { .. } => true,
    }
}

/// The name under which the external metrics API is registered.
pub fn api_service_name() -> (r: &'static str)
    ensures
        r@ == "v1beta1.external.metrics.k8s.io"@,
{
    "v1beta1.external.metrics.k8s.io"
}

/// A setting, or its default where it is not set.
pub open spec fn setting_or(setting: Option<String>, default: Seq<char>) -> Seq<char> {
    match setting {
        Some(text) => text@,
        None => default,
    }
}

fn or_default(setting: Option<String>, default: &str) -> (r: String)
    ensures
        r@ == setting_or(setting, default@),
{
    match setting {
        Some(text) => text,
        None => default.to_owned(),
    }
}

/// Register APIService for external metrics API: the registration, given the service's
/// namespace and name where they are configured and the version of the registration
/// that it replaces where there is one.
pub fn register_api_service(
    service_namespace: Option<String>,
    service_name: Option<String>,
    step: InstallStep,
) -> (r: ApiService)
    ensures
        opt_view(r.metadata.name) == Some("v1beta1.external.metrics.k8s.io"@),
        r.metadata.resource_version == (match step {
            InstallStep::Create => None,
            InstallStep::Replace { resource_version } => resource_version,
        }),
        r.metadata.generate_name is None,
        r.metadata.namespace is None,
        r.metadata.uid is None,
        r.metadata.labels is None,
        r.metadata.owner_references is None,
        r.metadata.deletion_timestamp is None,
        r.group@ == "external.metrics.k8s.io"@,
        r.version@ == "v1beta1"@,
        r.service_namespace@ == setting_or(service_namespace, "epa-system"@),
        r.service_name@ == setting_or(service_name, "epa-webhook"@),
        r.service_port == 443,
        !r.insecure_skip_tls_verify,
        r.group_priority_minimum == 100,
        r.version_priority == 100,
{
    let mut metadata = ObjectMeta::empty();
    metadata.name = Some(api_service_name().to_owned());
    metadata.resource_version = match step {
        InstallStep::Create => None,
        InstallStep::Replace { resource_version } => resource_version,
    };
    ApiService {
        metadata,
        group: "external.metrics.k8s.io".to_owned(),
        version: "v1beta1".to_owned(),
        service_name: or_default(service_name, "epa-webhook"),
        service_namespace: or_default(service_namespace, "epa-system"),
        service_port: 443,
        insecure_skip_tls_verify: false,
        group_priority_minimum: 100,
        version_priority: 100,
    }
}

} // verus!
