//! Which resources are scraped, as they come and go.

use crate::apis::externalpodautoscaler::ExternalPodAutoscaler;
use crate::duration::{duration_of, parse_duration};
use crate::membership::ownership::{epa_key, key_of};
use crate::names::NameMap;
use crate::number::{parse_unsigned, unsigned_value};
use crate::scraper::scheduler::{configured, metric_config};
use crate::store::ops::{MetricsStore, StoreView};
use std::sync::Arc;
use vstd::prelude::*;

verus! {

/// Message to notify scraper of EPA changes.
///
/// The controller sends these messages to notify the scraper service when
/// EPA resources are created, updated, or deleted.
#[derive(Debug)]
pub enum EpaUpdate {
    /// EPA was created or updated
    Upsert(Arc<ExternalPodAutoscaler>),
    /// EPA was deleted with its namespace and name
    Delete { namespace: String, name: String },
}

/// How many workers there are where nothing is configured.
pub const DEFAULT_WORKERS: usize = 20;

/// How many jobs wait for each worker.
pub const JOBS_PER_WORKER: usize = 64;

/// How many workers a setting asks for: at least one.
pub open spec fn workers_of(setting: Option<Seq<char>>) -> nat {
    let asked = match setting {
        Some(text) => match unsigned_value(text, usize::MAX as nat) {
            Some(n) => n,
            None => DEFAULT_WORKERS as nat,
        },
        None => DEFAULT_WORKERS as nat,
    };
    if asked < 1 {
        1
    } else {
        asked
    }
}

/// How many workers a setting asks for. It is at least one: without a worker, nobody
/// would take the jobs.
pub fn worker_count(setting: Option<&str>) -> (r: usize)
    ensures
        r == workers_of(
            match setting {
                Some(text) => Some(text@),
                None => None,
            },
        ),
{
    let asked: usize = match setting {
        Some(text) => match parse_unsigned(text, usize::MAX as u64) {
            Some(n) => n as usize,
            None => DEFAULT_WORKERS,
        },
        None => DEFAULT_WORKERS,
    };
    if asked < 1 {
        1
    } else {
        asked
    }
}

/// How many jobs may wait for the workers.
pub fn job_capacity(workers: usize) -> (r: usize)
    requires
        workers * JOBS_PER_WORKER <= usize::MAX,
    ensures
        r == workers * JOBS_PER_WORKER,
{
    workers * JOBS_PER_WORKER
}

/// What is scraped, and the store, after a message.
pub open spec fn updated(
    active: Map<Seq<char>, Arc<ExternalPodAutoscaler>>,
    store: StoreView,
    update: EpaUpdate,
) -> (Map<Seq<char>, Arc<ExternalPodAutoscaler>>, StoreView) {
    match update {
        EpaUpdate::Delete { namespace, name } => (active.remove(key_of(namespace@, name@)), store),
        EpaUpdate::Upsert(epa) => match (epa.metadata.namespace, epa.metadata.name) {
            (Some(namespace), Some(name)) => (
                active.insert(key_of(namespace@, name@), epa),
                match duration_of(epa.spec.scrape.evaluation_period@) {
                    Ok(period) => configured(
                        store,
                        namespace@,
                        name@,
                        *epa,
                        period as u128,
                        epa.spec.metrics@.len() as int,
                    ),
                    Err(_) => store,
                },
            ),
            _ => (active, store),
        },
    }
}

fn set_configs(
    store: &mut MetricsStore,
    namespace: &str,
    name: &str,
    epa: &ExternalPodAutoscaler,
    evaluation_period: u128,
)
    ensures
        final(store)@ == configured(
            old(store)@,
            namespace@,
            name@,
            *epa,
            evaluation_period,
            epa.spec.metrics@.len() as int,
        ),
{
    let metrics = &epa.spec.metrics;
    let ghost start = store@;
    let mut i: usize = 0;
    while i < metrics.len()
        invariant
            i <= metrics@.len(),
            metrics == epa.spec.metrics,
            store@ == configured(start, namespace@, name@, *epa, evaluation_period, i as int),
        decreases metrics.len() - i,
    {
        if let Ok(config) = metric_config(epa, &metrics[i], evaluation_period) {
            store.set_metric_config(namespace, name, metrics[i].metric_name.as_str(), config);
        }
        i += 1;
    }
}

/// Applies a message to what is scraped. It is set at once how the metrics of a
/// resource are aggregated, so that they can be asked for before the first scrape;
/// what of that cannot be read is passed over. A resource without a namespace or a
/// name is passed over.
pub fn handle_update(
    active: &mut NameMap<Arc<ExternalPodAutoscaler>>,
    store: &mut MetricsStore,
    update: EpaUpdate,
)
    ensures
        (final(active)@, final(store)@) == updated(old(active)@, old(store)@, update),
{
    match update {
        EpaUpdate::Upsert(epa) => {
            let namespace = match &epa.metadata.namespace {
                Some(namespace) => namespace.clone(),
                None => {
                    return ;
                },
            };
            let name = match &epa.metadata.name {
                Some(name) => name.clone(),
                None => {
                    return ;
                },
            };
            if let Ok(period) = parse_duration(epa.spec.scrape.evaluation_period.as_str()) {
                set_configs(store, namespace.as_str(), name.as_str(), &epa, period);
            }
            active.insert(epa_key(namespace.as_str(), name.as_str()), epa);
        },
        EpaUpdate::Delete { namespace, name } => {
            active.remove(epa_key(namespace.as_str(), name.as_str()).as_str());
        },
    }
}

} // verus!
