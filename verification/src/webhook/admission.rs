//! Admission of `ExternalPodAutoscaler` resources: they are given defaults and are
//! validated before they are stored.

use crate::apis::externalpodautoscaler::ExternalPodAutoscaler;
use crate::text::opt_view;
use crate::webhook::defaults::{apply_defaults, is_defaulted};
use crate::webhook::patch::{generate_patch, patch_for};
use crate::webhook::validation::{can_be_validated, can_validate, spec_fault, validate_epa_spec};
use vstd::prelude::*;
use vstd::string::StringExecFns;

verus! {

// ---------------------------------------------------------------------------
// Reviews
// ---------------------------------------------------------------------------

/// AdmissionReview request wrapper
#[derive(Debug)]
pub struct AdmissionReview {
    pub api_version: String,
    pub kind: String,
    pub request: Option<AdmissionRequest>,
    pub response: Option<AdmissionResponse>,
}

/// AdmissionRequest
#[derive(Debug)]
pub struct AdmissionRequest {
    pub uid: String,
    pub kind: GroupVersionKind,
    pub resource: GroupVersionResource,
    pub operation: String,
    /// The object, as JSON text
    pub object: Option<String>,
    /// The object as it was, as JSON text
    pub old_object: Option<String>,
}

/// GroupVersionKind
#[derive(Debug)]
pub struct GroupVersionKind {
    pub group: String,
    pub version: String,
    pub kind: String,
}

/// GroupVersionResource
#[derive(Debug)]
pub struct GroupVersionResource {
    pub group: String,
    pub version: String,
    pub resource: String,
}

/// AdmissionResponse
#[derive(Debug)]
pub struct AdmissionResponse {
    pub uid: String,
    pub allowed: bool,
    pub status: Option<StatusDetails>,
    pub patch: Option<String>,
    pub patch_type: Option<String>,
}

/// Status details for denied requests
#[derive(Debug)]
pub struct StatusDetails {
    pub code: u16,
    pub message: String,
}

/// Admission error type
#[derive(Debug)]
pub enum AdmissionError {
    BadRequest(String),
    InternalError(String),
}

impl AdmissionError {
    /// The status code of the answer.
    pub fn status_code(&self) -> (r: u16)
        ensures
            r == (match *self {
                AdmissionError::BadRequest(_) => 400u16,
                AdmissionError::InternalError(_) => 500u16,
            }),
    {
        match self {
            AdmissionError::BadRequest(_) => 400,
            AdmissionError::InternalError(_) => 500,
        }
    }

    /// The body of the answer.
    pub fn message(self) -> (r: String)
        ensures
            r@ == (match self {
                AdmissionError::BadRequest(m) => m@,
                AdmissionError::InternalError(m) => m@,
            }),
    {
        match self {
            AdmissionError::BadRequest(m) => m,
            AdmissionError::InternalError(m) => m,
        }
    }
}

impl AdmissionReview {
    /// Whether this is the answer to a request: denied for the given reason where there
    /// is one, else allowed, with the given patch where there is one.
    pub open spec fn answers(
        self,
        uid: Seq<char>,
        denied: Option<Seq<char>>,
        patch: Option<Seq<char>>,
    ) -> bool {
        &&& self.api_version@ == "admission.k8s.io/v1"@
        &&& self.kind@ == "AdmissionReview"@
        &&& self.request is None
        &&& self.response matches Some(response) && {
            &&& response.uid@ == uid
            &&& response.allowed == (denied is None)
            &&& match denied {
                Some(reason) => response.status matches Some(status) && status.code == 400
                    && status.message@ == reason,
                None => response.status is None,
            }
            &&& match patch {
                Some(text) => {
                    &&& response.patch matches Some(p) && p@ == text
                    &&& response.patch_type matches Some(t) && t@ == "JSONPatch"@
                },
                None => response.patch is None && response.patch_type is None,
            }
        }
    }
}

fn answer(uid: String, denied: Option<String>, patch: Option<String>) -> (r: AdmissionReview)
    ensures
        r.answers(uid@, opt_view(denied), opt_view(patch)),
{
    let allowed = denied.is_none();
    let status = match denied {
        Some(message) => Some(StatusDetails { code: 400, message }),
        None => None,
    };
    let patch_type = if patch.is_some() {
        Some("JSONPatch".to_owned())
    } else {
        None
    };
    AdmissionReview {
        api_version: "admission.k8s.io/v1".to_owned(),
        kind: "AdmissionReview".to_owned(),
        request: None,
        response: Some(AdmissionResponse { uid, allowed, status, patch, patch_type }),
    }
}

/// What is to be done about a review.
#[derive(Debug)]
pub enum ReviewStep {
    /// It is answered: there is no object.
    Answer(AdmissionReview),
    /// The object of the request is to be read.
    Read { uid: String, object: String },
}

/// Takes a review. Without a request it is an error; without an object the request is
/// allowed.
pub fn receive(review: AdmissionReview) -> (r: Result<ReviewStep, AdmissionError>)
    ensures
        match review.request {
            None => r matches Err(AdmissionError::BadRequest(m)) && m@
                == "Missing request in AdmissionReview"@,
            Some(request) => match request.object {
                None => r matches Ok(ReviewStep::Answer(a)) && a.answers(request.uid@, None, None),
                Some(text) => r matches Ok(ReviewStep::Read { uid, object }) && uid@
                    == request.uid@ && object@ == text@,
            },
        },
{
    match review.request {
        None => Err(
            AdmissionError::BadRequest("Missing request in AdmissionReview".to_owned()),
        ),
        Some(request) => match request.object {
            Some(object) => Ok(ReviewStep::Read { uid: request.uid, object }),
            None => Ok(ReviewStep::Answer(answer(request.uid, None, None))),
        },
    }
}

fn unreadable(reason: &str) -> (r: AdmissionError)
    ensures
        r matches AdmissionError::BadRequest(m) && m@ == "Failed to parse EPA object: "@ + reason@,
{
    let mut m = "Failed to parse EPA object: ".to_owned();
    m.append(reason);
    AdmissionError::BadRequest(m)
}

/// Validating webhook handler for EPA: answers a request, given what reading its object
/// came to. A resource with which something is wrong is denied.
pub fn validate_epa(uid: String, parsed: Result<ExternalPodAutoscaler, String>) -> (r: Result<
    AdmissionReview,
    AdmissionError,
>)
    requires
        parsed matches Ok(epa) ==> can_be_validated(epa.spec),
    ensures
        match parsed {
            Ok(epa) => r matches Ok(review) && review.answers(uid@, spec_fault(epa.spec), None),
            Err(reason) => r matches Err(AdmissionError::BadRequest(m)) && m@
                == "Failed to parse EPA object: "@ + reason@,
        },
{
    match parsed {
        Ok(epa) => match validate_epa_spec(&epa) {
            Ok(()) => Ok(answer(uid, None, None)),
            Err(m) => Ok(answer(uid, Some(m), None)),
        },
        Err(reason) => Err(unreadable(reason.as_str())),
    }
}

/// Validating webhook handler for EPA, for any resource: there is no answer where the
/// resource cannot be validated.
pub fn review_epa(uid: String, parsed: Result<ExternalPodAutoscaler, String>) -> (r: Option<
    Result<AdmissionReview, AdmissionError>,
>)
    ensures
        match parsed {
            Ok(epa) => if can_be_validated(epa.spec) {
                r matches Some(Ok(review)) && review.answers(uid@, spec_fault(epa.spec), None)
            } else {
                r is None
            },
            Err(reason) => r matches Some(Err(AdmissionError::BadRequest(m))) && m@
                == "Failed to parse EPA object: "@ + reason@,
        },
{
    if let Ok(epa) = &parsed {
        if !can_validate(epa) {
            return None;
        }
    }
    Some(validate_epa(uid, parsed))
}

/// The resource with its defaults, given what reading the object of a request came to.
pub fn default_epa(parsed: Result<ExternalPodAutoscaler, String>) -> (r: Result<
    ExternalPodAutoscaler,
    AdmissionError,
>)
    ensures
        match parsed {
            Ok(epa) => r matches Ok(defaulted) && is_defaulted(epa, defaulted),
            Err(reason) => r matches Err(AdmissionError::BadRequest(m)) && m@
                == "Failed to parse EPA object: "@ + reason@,
        },
{
    match parsed {
        Ok(epa) => {
            let mut epa = epa;
            apply_defaults(&mut epa);
            Ok(epa)
        },
        Err(reason) => Err(unreadable(reason.as_str())),
    }
}

/// Mutating webhook handler for EPA: answers a request, given its object and what
/// writing the resource with its defaults came to. The answer holds the patch from the
/// one to the other, where there is a difference.
pub fn mutate_epa(uid: String, original: &str, modified: Result<String, String>) -> (r: Result<
    AdmissionReview,
    AdmissionError,
>)
    ensures
        match modified {
            Ok(text) => r matches Ok(review) && review.answers(
                uid@,
                None,
                patch_for(original@, text@),
            ),
            Err(reason) => r matches Err(AdmissionError::InternalError(m)) && m@
                == "Failed to serialize EPA: "@ + reason@,
        },
        modified matches Ok(text) && original@ == text@ ==> (r matches Ok(review)
            && review.answers(uid@, None, None)),
{
    match modified {
        Ok(text) => {
            let patch = generate_patch(original, text.as_str());
            Ok(answer(uid, None, patch))
        },
        Err(reason) => {
            let mut m = "Failed to serialize EPA: ".to_owned();
            m.append(reason.as_str());
            Err(AdmissionError::InternalError(m))
        },
    }
}

} // verus!
