use vstd::prelude::*;
use vstd::string::*;

use crate::error::{is_validation, AppError, AppResult};
use crate::ids::new_id;
use crate::sessions::check_approval_decided;
use crate::text::{spec_trim, trim};

verus! {

/// A request for approval, as it is filed.
pub struct ApprovalFiling {
    pub entity_type: String,
    pub entity_id: String,
    pub reason: String,
}

/// A new approval request as it is stored: pending, with the reason
/// trimmed.
pub struct NewApproval {
    pub id: String,
    pub entity_type: String,
    pub entity_id: String,
    pub requested_by: Option<String>,
    pub reason: String,
}

/// Files an approval request under a fresh id: `insert` stores it pending
/// and `read` reads it back.
pub fn create_approval_request<R, I: Fn(&NewApproval) -> AppResult<()>, G: Fn(&str) -> AppResult<R>>(
    filing: ApprovalFiling,
    requested_by: Option<String>,
    insert: &I,
    read: &G,
) -> (r: AppResult<R>)
    requires
        forall|a: &NewApproval| call_requires(*insert, (a,)),
        forall|s: &str| call_requires(*read, (s,)),
    ensures
        exists|a: NewApproval, done: AppResult<()>|
            {
                &&& a.id@.len() == 36
                &&& a.entity_type@ == filing.entity_type@
                &&& a.entity_id@ == filing.entity_id@
                &&& a.requested_by == requested_by
                &&& a.reason@ == spec_trim(filing.reason@)
                &&& #[trigger] call_ensures(*insert, (&a,), done)
                &&& match done {
                    Err(e) => r == Err::<R, AppError>(e),
                    Ok(_) => exists|s: &str| s@ == a.id@ && #[trigger] call_ensures(*read, (s,), r),
                }
            },
{
    let approval = NewApproval {
        id: new_id(),
        entity_type: filing.entity_type,
        entity_id: filing.entity_id,
        requested_by,
        reason: String::from_str(trim(filing.reason.as_str())),
    };
    let done = insert(&approval);
    assert(call_ensures(*insert, (&approval,), done));
    if let Err(e) = done {
        return Err(e);
    }
    let s = approval.id.as_str();
    let r = read(s);
    assert(call_ensures(*read, (s,), r));
    r
}

/// The message for deciding a request that is missing or decided already.
pub open spec fn already_decided_message() -> Seq<char> {
    "审批单不存在或已处理，不能重复审批"@
}

/// Decides a pending approval request: `update` sets the status, decider
/// and note of request `id` only while it is pending and answers how many
/// requests it changed; none means the request is missing or decided
/// already, and a decision is never taken twice.  `read` reads the decided
/// request back.
pub fn decide_approval_request<
    R,
    U: Fn(&str, &str, Option<&str>, Option<&str>) -> AppResult<usize>,
    G: Fn(&str) -> AppResult<R>,
>(
    approval_id: &str,
    status: &str,
    decided_by: Option<&str>,
    decision_note: Option<&str>,
    update: &U,
    read: &G,
) -> (r: AppResult<R>)
    requires
        forall|i: &str, s: &str, b: Option<&str>, n: Option<&str>| call_requires(*update, (i, s, b, n)),
        forall|s: &str| call_requires(*read, (s,)),
    ensures
        exists|changed: AppResult<usize>|
            {
                &&& #[trigger] call_ensures(*update, (approval_id, status, decided_by, decision_note), changed)
                &&& match changed {
                    Err(e) => r == Err::<R, AppError>(e),
                    Ok(0) => r matches Err(e) && is_validation(e, already_decided_message()),
                    Ok(_) => call_ensures(*read, (approval_id,), r),
                }
            },
{
    let changed = update(approval_id, status, decided_by, decision_note);
    assert(call_ensures(*update, (approval_id, status, decided_by, decision_note), changed));
    let n = match changed {
        Ok(n) => n,
        Err(e) => {
            return Err(e);
        },
    };
    if let Err(e) = check_approval_decided(n) {
        return Err(e);
    }
    let r = read(approval_id);
    assert(call_ensures(*read, (approval_id,), r));
    r
}

} // verus!
