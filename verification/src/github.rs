//! The workflow-event data the CI host hands the process, and the
//! registration advice shown when the remote cache refuses the token.

use vstd::prelude::*;

use crate::bytesutil::{ascii_of, bytes_eq, lit_bytes};
use vstd::utf8::encode_utf8;

verus! {

pub struct WorkflowData {
    pub event: WorkflowDataEvent,
}

pub struct WorkflowDataEvent {
    pub repository: WorkflowDataEventRepo,
}

pub struct WorkflowDataEventRepo {
    pub owner: WorkflowDataEventRepoOwner,
}

pub struct WorkflowDataEventRepoOwner {
    pub login: String,
    pub kind: String,
}

/// The advice shown when authentication fails: an account for a user, an
/// organization for an organization, and the generic advice when the
/// owner is unknown or of another kind.
pub open spec fn spec_unauthenticated_error_message(data: Option<WorkflowData>) -> Seq<u8> {
    match data {
        Some(d) => {
            let owner = d.event.repository.owner;
            if encode_utf8(owner.kind@) == ascii_of("User") {
                ascii_of("::error title=FlakeHub registration required.::Please create an account for ")
                    + encode_utf8(owner.login@) + ascii_of(" on FlakeHub.com to publish flakes.")
            } else if encode_utf8(owner.kind@) == ascii_of("Organization") {
                ascii_of(
                    "::error title=FlakeHub registration required.::Please create an organization for ",
                ) + encode_utf8(owner.login@) + ascii_of(" on FlakeHub.com to publish flakes.")
            } else {
                spec_generic_advice()
            }
        },
        None => spec_generic_advice(),
    }
}

/// The generic registration advice.
pub open spec fn spec_generic_advice() -> Seq<u8> {
    ascii_of(
        "::error title=FlakeHub registration required.::Unable to authenticate to FlakeHub. Individuals must register at FlakeHub.com; Organizations must create an organization at FlakeHub.com.",
    )
}

/// Composes the advice line for the owner the workflow data names.
pub fn unauthenticated_error_message(data: &Option<WorkflowData>) -> (r: Vec<u8>)
    ensures
        r@ == spec_unauthenticated_error_message(*data),
{
    proof {
        reveal_strlit("User");
        reveal_strlit("Organization");
        reveal_strlit(
            "::error title=FlakeHub registration required.::Please create an account for ",
        );
        reveal_strlit(
            "::error title=FlakeHub registration required.::Please create an organization for ",
        );
        reveal_strlit(" on FlakeHub.com to publish flakes.");
        reveal_strlit(
            "::error title=FlakeHub registration required.::Unable to authenticate to FlakeHub. Individuals must register at FlakeHub.com; Organizations must create an organization at FlakeHub.com.",
        );
    }
    match data {
        Some(d) => {
            let owner = &d.event.repository.owner;
            let kind_bytes = owner.kind.as_str().as_bytes();
            let login_bytes = owner.login.as_str().as_bytes();
            if bytes_eq(kind_bytes, lit_bytes("User").as_slice()) {
                let mut r = lit_bytes(
                    "::error title=FlakeHub registration required.::Please create an account for ",
                );
                let mut login = vstd::slice::slice_to_vec(login_bytes);
                r.append(&mut login);
                let mut suffix = lit_bytes(" on FlakeHub.com to publish flakes.");
                r.append(&mut suffix);
                r
            } else if bytes_eq(kind_bytes, lit_bytes("Organization").as_slice()) {
                let mut r = lit_bytes(
                    "::error title=FlakeHub registration required.::Please create an organization for ",
                );
                let mut login = vstd::slice::slice_to_vec(login_bytes);
                r.append(&mut login);
                let mut suffix = lit_bytes(" on FlakeHub.com to publish flakes.");
                r.append(&mut suffix);
                r
            } else {
                lit_bytes(
                    "::error title=FlakeHub registration required.::Unable to authenticate to FlakeHub. Individuals must register at FlakeHub.com; Organizations must create an organization at FlakeHub.com.",
                )
            }
        },
        None => lit_bytes(
            "::error title=FlakeHub registration required.::Unable to authenticate to FlakeHub. Individuals must register at FlakeHub.com; Organizations must create an organization at FlakeHub.com.",
        ),
    }
}

} // verus!
