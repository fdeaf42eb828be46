//! What is known of a resource when it is reconciled.

use crate::apis::externalpodautoscaler::ExternalPodAutoscaler;
use std::sync::Arc;
use vstd::prelude::*;

verus! {

/// ObservedState contains all the observed resources for an EPA reconciliation
#[derive(Debug)]
pub struct ObservedState {
    /// The EPA resource being reconciled
    pub epa: Option<Arc<ExternalPodAutoscaler>>,
    /// Time when the observation was made, in microseconds since the Unix epoch
    pub observe_time: i64,
}

impl ObservedState {
    /// Whether the resource exists and is being deleted.
    pub open spec fn deleting(self) -> bool {
        self.epa matches Some(epa) && epa.metadata.deletion_timestamp is Some
    }

    /// Create a new empty ObservedState
    pub fn new(now: i64) -> (r: ObservedState)
        ensures
            r.epa is None,
            r.observe_time == now,
    {
        ObservedState { epa: None, observe_time: now }
    }

    /// Check if the EPA resource exists
    pub fn epa_exists(&self) -> (r: bool)
        ensures
            r == (self.epa is Some),
    {
        self.epa.is_some()
    }

    /// Get the EPA resource if it exists
    pub fn epa(&self) -> (r: Option<&Arc<ExternalPodAutoscaler>>)
        ensures
            match r {
                Some(epa) => self.epa == Some(*epa),
                None => self.epa is None,
            },
    {
        match &self.epa {
            Some(epa) => Some(epa),
            None => None,
        }
    }

    /// Check if the EPA is being deleted
    pub fn is_deleting(&self) -> (r: bool)
        ensures
            r == self.deleting(),
    {
        match &self.epa {
            Some(epa) => epa.metadata.deletion_timestamp.is_some(),
            None => false,
        }
    }
}

/// What became of the request for a resource.
#[derive(Debug)]
pub enum Lookup {
    /// The resource
    Found(ExternalPodAutoscaler),
    /// The API server refused, with this status code and this message.
    Refused { code: u16, message: String },
    /// No answer came, for this reason.
    Failed(String),
}

/// StateObserver handles observing and gathering the current state
#[derive(Debug)]
pub struct StateObserver {
    /// Namespace of the resource
    pub namespace: String,
    /// Name of the resource
    pub name: String,
}

impl StateObserver {
    /// Create a new StateObserver
    pub fn new(namespace: String, name: String) -> (r: StateObserver)
        ensures
            r.namespace == namespace,
            r.name == name,
    {
        StateObserver { namespace, name }
    }

    /// Observe the current state and populate the ObservedState, given what became of the
    /// request for the resource. A resource that is not found was deleted: that is no
    /// error, and the time of the observation stays as it was.
    pub fn observe(&self, observed: &mut ObservedState, lookup: Lookup, now: i64) -> (r: Result<
        (),
        String,
    >)
        ensures
            match lookup {
                Lookup::Found(epa) => {
                    &&& r is Ok
                    &&& final(observed).epa == Some(Arc::new(epa))
                    &&& final(observed).observe_time == now
                },
                Lookup::Refused { code, message } => if code == 404 {
                    &&& r is Ok
                    &&& final(observed).epa is None
                    &&& final(observed).observe_time == old(observed).observe_time
                } else {
                    &&& r matches Err(m) && m@ == message@
                    &&& *final(observed) == *old(observed)
                },
                Lookup::Failed(message) => {
                    &&& r matches Err(m) && m@ == message@
                    &&& *final(observed) == *old(observed)
                },
            },
    {
        match lookup {
            Lookup::Found(epa) => {
                observed.epa = Some(Arc::new(epa));
                observed.observe_time = now;
                Ok(())
            },
            Lookup::Refused { code, message } => {
                if code == 404 {
                    observed.epa = None;
                    Ok(())
                } else {
                    Err(message)
                }
            },
            Lookup::Failed(message) => Err(message),
        }
    }
}

} // verus!
