//! The rows of the per-project service table of `rlwy ls`.

use vstd::prelude::*;

use crate::context::opt_view;
use crate::deployments::{commit_cell, commit_cell_text, message_cell, message_cell_text};
use crate::model::{DeploymentStatus, Project, Service};

verus! {

/// One row: the service, the status of its latest deployment, and the short
/// commit hash and commit message of that deployment (`None` where the
/// table shows a dash, or no deployment at all for the status).
pub struct ServiceRow {
    pub service: String,
    pub status: Option<DeploymentStatus>,
    pub commit: Option<String>,
    pub message: Option<String>,
}

/// The row of a service.
pub open spec fn row_matches(r: ServiceRow, s: Service) -> bool {
    &&& r.service@ == s.name@
    &&& match s.latest() {
        Some(d) => {
            &&& r.status == Some(d.status)
            &&& opt_view(r.commit) == commit_cell_text(d)
            &&& opt_view(r.message) == message_cell_text(d)
        },
        None => r.status is None && r.commit is None && r.message is None,
    }
}

/// The row of one service.
pub fn service_row(s: &Service) -> (r: ServiceRow)
    ensures
        row_matches(r, *s),
{
    match s.latest_deployment() {
        Some(d) => {
            let commit = commit_cell(d);
            let message = message_cell(d);
            ServiceRow { service: s.name.clone(), status: Some(d.status), commit, message }
        },
        None => ServiceRow { service: s.name.clone(), status: None, commit: None, message: None },
    }
}

/// The rows of a project's table, one per service, in order.
pub fn service_rows(p: &Project) -> (rows: Vec<ServiceRow>)
    ensures
        rows@.len() == p.service_seq().len(),
        forall|i: int| 0 <= i < rows@.len() ==> row_matches(#[trigger] rows@[i], p.service_seq()[i]),
{
    let svcs = p.services();
    let mut rows: Vec<ServiceRow> = Vec::new();
    let mut i: usize = 0;
    while i < svcs.len()
        invariant
            i <= svcs.len(),
            svcs@.len() == p.service_seq().len(),
            forall|k: int| 0 <= k < svcs@.len() ==> *svcs@[k] == p.service_seq()[k],
            rows@.len() == i,
            forall|k: int| 0 <= k < i ==> row_matches(#[trigger] rows@[k], p.service_seq()[k]),
        decreases svcs.len() - i,
    {
        let row = service_row(svcs[i]);
        rows.push(row);
        i = i + 1;
    }
    rows
}

} // verus!
