use vstd::prelude::*;
use vstd::string::*;

use crate::error::{is_validation, validation, AppError, AppResult};
use crate::ids::new_id;
use crate::master_data::id_for;
use crate::stock_rules::{
    check_draft_confirmable, check_draft_editable, check_outbound_department, department_required_message, check_stocktake_editable, check_voidable, document_no_like_pattern, next_document_no, normalized_outbound_kind, operator_name,
    period_month, reverse_direction, spec_department_required, spec_document_prefix, spec_document_stem, spec_outbound_kind, spec_party_check,
    spec_party_to_check, validate_enabled_parties_for_document, void_remark,
};
use crate::text::{
    blank_to_none, opt_as_str, opt_str_view, opt_view, pad_zeros, same_text, spec_blank_to_none, spec_decimal,
    spec_take_chars, spec_trim, trim,
};

verus! {

/// The operator recorded for a handler: the trimmed handler, or `"system"`.
pub open spec fn spec_operator(handler: Option<String>) -> Seq<char> {
    match spec_blank_to_none(opt_view(handler)) {
        Some(h) => h,
        None => "system"@,
    }
}

/// The direction that reverses a movement in `direction`.
pub open spec fn spec_reverse_direction(direction: Seq<char>) -> Seq<char> {
    if direction == "in"@ {
        "out"@
    } else {
        "in"@
    }
}

/// The remark of the movements that reverse document `document_no`.
pub open spec fn spec_void_remark(document_no: Seq<char>, reason: Seq<char>) -> Seq<char> {
    "作废冲正 "@ + document_no + "："@ + reason
}

/// A movement of a document through a stock batch, as a void reverses it;
/// `details` are the figures and parties that the reversal copies.
pub struct BatchMovement<F> {
    pub batch_id: String,
    pub batch_no: String,
    pub item_id: String,
    pub direction: String,
    pub details: F,
}

/// The steps of reversing a document's batch movements: `load` lists the
/// movements of a document (newest first); `consumed` tells whether an
/// inbound batch has been drawn from since; `void_batch` empties and voids
/// an inbound batch; `restore_batch` gives an outbound movement's stock back
/// to its batch; `record` writes a reversal movement (the movement, its
/// reversed direction, the operator, the remark); `sync_balance` recomputes
/// an item's balance from its batches.
pub struct BatchReversal<LB, BC, VB, RB, RR, SB> {
    pub load: LB,
    pub consumed: BC,
    pub void_batch: VB,
    pub restore_batch: RB,
    pub record: RR,
    pub sync_balance: SB,
}

/// The items of a list of movements, each once, in the order in which they
/// first occur.
pub open spec fn first_seen_items<F>(ms: Seq<BatchMovement<F>>) -> Seq<Seq<char>>
    decreases ms.len(),
{
    if ms.len() == 0 {
        Seq::empty()
    } else {
        let seen = first_seen_items(ms.drop_last());
        if seen.contains(ms.last().item_id@) {
            seen
        } else {
            seen.push(ms.last().item_id@)
        }
    }
}

/// The message refusing to void an inbound batch that later outbound
/// movements have drawn from.
pub open spec fn consumed_batch_message(batch_no: Seq<char>) -> Seq<char> {
    "入库批次已被后续出库消耗，不能直接作废："@ + batch_no
}

/// Movement `m` was reversed: an inbound batch was found untouched and
/// voided, an outbound movement's stock went back to its batch, and the
/// reversal movement was written with the reversed direction, `operator`
/// and `remark`.
pub open spec fn batch_movement_reversed<F, LB, BC, VB, RB, RR, SB>(
    steps: BatchReversal<LB, BC, VB, RB, RR, SB>,
    m: BatchMovement<F>,
    operator: Seq<char>,
    remark: Seq<char>,
) -> bool where
    BC: Fn(&BatchMovement<F>) -> AppResult<bool>,
    VB: Fn(&str) -> AppResult<()>,
    RB: Fn(&BatchMovement<F>) -> AppResult<()>,
    RR: Fn(&BatchMovement<F>, &str, &str, &str) -> AppResult<()>,
 {
    &&& (m.direction@ == "in"@ ==> {
        &&& call_ensures(steps.consumed, (&m,), Ok::<bool, AppError>(false))
        &&& exists|b: &str, done: AppResult<()>|
            b@ == m.batch_id@ && #[trigger] call_ensures(steps.void_batch, (b,), done) && done is Ok
    })
    &&& (m.direction@ != "in"@ ==> exists|done: AppResult<()>|
        #[trigger] call_ensures(steps.restore_batch, (&m,), done) && done is Ok)
    &&& exists|d: &str, o: &str, k: &str, done: AppResult<()>|
        d@ == spec_reverse_direction(m.direction@) && o@ == operator && k@ == remark && #[trigger] call_ensures(
            steps.record,
            (&m, d, o, k),
            done,
        ) && done is Ok
}

/// The balance of `item` was recomputed.
pub open spec fn balance_synced<SB: Fn(&str) -> AppResult<()>>(sync_balance: SB, item: Seq<char>) -> bool {
    exists|s: &str, done: AppResult<()>| s@ == item && #[trigger] call_ensures(sync_balance, (s,), done) && done is Ok
}

/// Every batch movement that `load` listed for the document was reversed,
/// and the balance of each item moved was recomputed once, in the order in
/// which the items first occur.
pub open spec fn batches_reversed<F, LB, BC, VB, RB, RR, SB>(
    steps: BatchReversal<LB, BC, VB, RB, RR, SB>,
    document_id: Seq<char>,
    operator: Seq<char>,
    remark: Seq<char>,
) -> bool where
    LB: Fn(&str) -> AppResult<Vec<BatchMovement<F>>>,
    BC: Fn(&BatchMovement<F>) -> AppResult<bool>,
    VB: Fn(&str) -> AppResult<()>,
    RB: Fn(&BatchMovement<F>) -> AppResult<()>,
    RR: Fn(&BatchMovement<F>, &str, &str, &str) -> AppResult<()>,
    SB: Fn(&str) -> AppResult<()>,
 {
    exists|d: &str, ms: Vec<BatchMovement<F>>|
        {
            &&& d@ == document_id
            &&& #[trigger] call_ensures(steps.load, (d,), Ok::<Vec<BatchMovement<F>>, AppError>(ms))
            &&& forall|i: int|
                0 <= i < ms@.len() ==> batch_movement_reversed(steps, #[trigger] ms@[i], operator, remark)
            &&& forall|k: int|
                0 <= k < first_seen_items(ms@).len() ==> balance_synced(
                    steps.sync_balance,
                    #[trigger] first_seen_items(ms@)[k],
                )
        }
}

/// A batch reversal failed with `e`: a step failed with it, or an inbound
/// batch had been drawn from.
pub open spec fn batch_reversal_failed<F, LB, BC, VB, RB, RR, SB>(
    steps: BatchReversal<LB, BC, VB, RB, RR, SB>,
    e: AppError,
) -> bool where
    LB: Fn(&str) -> AppResult<Vec<BatchMovement<F>>>,
    BC: Fn(&BatchMovement<F>) -> AppResult<bool>,
    VB: Fn(&str) -> AppResult<()>,
    RB: Fn(&BatchMovement<F>) -> AppResult<()>,
    RR: Fn(&BatchMovement<F>, &str, &str, &str) -> AppResult<()>,
    SB: Fn(&str) -> AppResult<()>,
 {
    ||| exists|d: &str| call_ensures(steps.load, (d,), Err::<Vec<BatchMovement<F>>, AppError>(e))
    ||| exists|m: &BatchMovement<F>|
        call_ensures(steps.consumed, (m,), Err::<bool, AppError>(e)) || (m.direction@ == "in"@ && call_ensures(
            steps.consumed,
            (m,),
            Ok::<bool, AppError>(true),
        ) && is_validation(e, consumed_batch_message(m.batch_no@)))
    ||| exists|b: &str| call_ensures(steps.void_batch, (b,), Err::<(), AppError>(e))
    ||| exists|m: &BatchMovement<F>| call_ensures(steps.restore_batch, (m,), Err::<(), AppError>(e))
    ||| exists|m: &BatchMovement<F>, d: &str, o: &str, k: &str|
        call_ensures(steps.record, (m, d, o, k), Err::<(), AppError>(e))
    ||| exists|s: &str| call_ensures(steps.sync_balance, (s,), Err::<(), AppError>(e))
}

fn copy_text(value: &Option<String>) -> (r: Option<String>)
    ensures
        r == *value,
{
    match value {
        Some(v) => Some(v.clone()),
        None => None,
    }
}

fn contains_text(v: &Vec<String>, s: &str) -> (r: bool)
    ensures
        r == v@.map_values(|x: String| x@).contains(s@),
{
    let ghost views = v@.map_values(|x: String| x@);
    let mut i: usize = 0;
    while i < v.len()
        invariant
            i <= v.len(),
            views == v@.map_values(|x: String| x@),
            forall|j: int| 0 <= j < i ==> views[j] != s@,
        decreases v.len() - i,
    {
        if same_text(v[i].as_str(), s) {
            assert(views[i as int] == s@);
            return true;
        }
        i = i + 1;
    }
    proof {
        if views.contains(s@) {
            let j = choose|j: int| 0 <= j < views.len() && views[j] == s@;
            assert(views[j] != s@);
        }
    }
    false
}

/// Reverses the batch movements of document `document_no` for a void with
/// `reason` by `handler`: every inbound batch must still be untouched; the
/// balance of every item moved is then recomputed once, in the order in
/// which the items first occur.
pub fn reverse_batch_document<F, LB, BC, VB, RB, RR, SB>(
    document_id: &str,
    document_no: &str,
    reason: &str,
    handler: Option<String>,
    steps: &BatchReversal<LB, BC, VB, RB, RR, SB>,
) -> (r: AppResult<()>) where
    LB: Fn(&str) -> AppResult<Vec<BatchMovement<F>>>,
    BC: Fn(&BatchMovement<F>) -> AppResult<bool>,
    VB: Fn(&str) -> AppResult<()>,
    RB: Fn(&BatchMovement<F>) -> AppResult<()>,
    RR: Fn(&BatchMovement<F>, &str, &str, &str) -> AppResult<()>,
    SB: Fn(&str) -> AppResult<()>,

    requires
        forall|d: &str| call_requires(steps.load, (d,)),
        forall|m: &BatchMovement<F>| call_requires(steps.consumed, (m,)),
        forall|b: &str| call_requires(steps.void_batch, (b,)),
        forall|m: &BatchMovement<F>| call_requires(steps.restore_batch, (m,)),
        forall|m: &BatchMovement<F>, d: &str, o: &str, k: &str| call_requires(steps.record, (m, d, o, k)),
        forall|s: &str| call_requires(steps.sync_balance, (s,)),
    ensures
        r is Ok ==> batches_reversed(*steps, document_id@, spec_operator(handler), spec_void_remark(document_no@, reason@)),
        r matches Err(e) ==> batch_reversal_failed(*steps, e),
{
    let loaded = (steps.load)(document_id);
    assert(call_ensures(steps.load, (document_id,), loaded));
    let movements = match loaded {
        Ok(ms) => ms,
        Err(e) => {
            return Err(e);
        },
    };
    assert(call_ensures(steps.load, (document_id,), Ok::<Vec<BatchMovement<F>>, AppError>(movements)));
    let operator = operator_name(handler);
    let remark = void_remark(document_no, reason);
    let ghost op = spec_operator(handler);
    let ghost rk = spec_void_remark(document_no@, reason@);
    let mut touched: Vec<String> = Vec::new();
    let mut i: usize = 0;
    while i < movements.len()
        invariant
            i <= movements.len(),
            operator@ == op,
            remark@ == rk,
            forall|m: &BatchMovement<F>| call_requires(steps.consumed, (m,)),
            forall|b: &str| call_requires(steps.void_batch, (b,)),
            forall|m: &BatchMovement<F>| call_requires(steps.restore_batch, (m,)),
            forall|m: &BatchMovement<F>, d: &str, o: &str, k: &str| call_requires(steps.record, (m, d, o, k)),
            forall|j: int| 0 <= j < i ==> batch_movement_reversed(*steps, #[trigger] movements@[j], op, rk),
            touched@.map_values(|x: String| x@) == first_seen_items(movements@.take(i as int)),
        decreases movements.len() - i,
    {
        let m = &movements[i];
        let reversed = reverse_direction(m.direction.as_str());
        if same_text(m.direction.as_str(), "in") {
            let answer = (steps.consumed)(m);
            assert(call_ensures(steps.consumed, (m,), answer));
            match answer {
                Err(e) => {
                    return Err(e);
                },
                Ok(true) => {
                    return Err(AppError::Validation(
                        String::from_str("入库批次已被后续出库消耗，不能直接作废：").concat(m.batch_no.as_str()),
                    ));
                },
                Ok(false) => {},
            }
            let b = m.batch_id.as_str();
            let voided = (steps.void_batch)(b);
            assert(call_ensures(steps.void_batch, (b,), voided));
            if let Err(e) = voided {
                return Err(e);
            }
        } else {
            let restored = (steps.restore_batch)(m);
            assert(call_ensures(steps.restore_batch, (m,), restored));
            if let Err(e) = restored {
                return Err(e);
            }
        }
        let (o, k) = (operator.as_str(), remark.as_str());
        let recorded = (steps.record)(m, reversed, o, k);
        assert(call_ensures(steps.record, (m, reversed, o, k), recorded));
        if let Err(e) = recorded {
            return Err(e);
        }
        assert(batch_movement_reversed(*steps, movements@[i as int], op, rk));
        let ghost before = touched@.map_values(|x: String| x@);
        let seen = contains_text(&touched, m.item_id.as_str());
        if !seen {
            touched.push(m.item_id.clone());
        }
        proof {
            let prefix = movements@.take(i as int + 1);
            assert(prefix.drop_last() =~= movements@.take(i as int));
            assert(prefix.last() == movements@[i as int]);
            assert(touched@.map_values(|x: String| x@) =~= first_seen_items(prefix));
        }
        i = i + 1;
    }
    assert(movements@.take(movements.len() as int) =~= movements@);
    let ghost items = first_seen_items(movements@);
    let mut k: usize = 0;
    while k < touched.len()
        invariant
            k <= touched.len(),
            touched@.map_values(|x: String| x@) == items,
            forall|s: &str| call_requires(steps.sync_balance, (s,)),
            forall|j: int| 0 <= j < k ==> balance_synced(steps.sync_balance, #[trigger] items[j]),
        decreases touched.len() - k,
    {
        let s = touched[k].as_str();
        let synced = (steps.sync_balance)(s);
        assert(call_ensures(steps.sync_balance, (s,), synced));
        if let Err(e) = synced {
            return Err(e);
        }
        assert(items[k as int] == s@);
        assert(balance_synced(steps.sync_balance, items[k as int]));
        k = k + 1;
    }
    Ok(())
}

/// A stock document as a void finds it.
pub struct VoidTarget {
    pub id: String,
    pub document_no: String,
    pub document_type: String,
    pub business_date: String,
    pub status: String,
}

/// A stock movement of a document that predates batches, as a void
/// reverses it; `details` are the item, figures and parties that the
/// reversal copies.
pub struct DocumentMovement<F> {
    pub direction: String,
    pub details: F,
}

/// The steps of voiding a document: `find` finds a document by id;
/// `has_batch_movements` tells whether it moved stock through batches;
/// `load_movements` lists its plain movements (oldest first);
/// `reverse_movement` applies one reversed to the balance and writes the
/// reversal movement (the movement, the reversed direction, the operator,
/// the remark); `mark_voided` marks the document voided with a reason;
/// `mark_stocktake_voided` voids the stocktake a document came from;
/// `audit` writes an audit entry (action, entity id, summary, operator).
pub struct VoidSteps<FD, HB, LM, RM, MV, MS, AU> {
    pub find: FD,
    pub has_batch_movements: HB,
    pub load_movements: LM,
    pub reverse_movement: RM,
    pub mark_voided: MV,
    pub mark_stocktake_voided: MS,
    pub audit: AU,
}

/// `audit` wrote the entry (`action`, `entity`, `summary`, `operator`).
pub open spec fn audited<AU: Fn(&str, &str, &str, &str) -> AppResult<()>>(
    audit: AU,
    action: Seq<char>,
    entity: Seq<char>,
    summary: Seq<char>,
    operator: Seq<char>,
) -> bool {
    exists|a: &str, i: &str, s: &str, o: &str, done: AppResult<()>|
        a@ == action && i@ == entity && s@ == summary && o@ == operator && #[trigger] call_ensures(
            audit,
            (a, i, s, o),
            done,
        ) && done is Ok
}

/// The audit summary of a void.
pub open spec fn void_summary(document_no: Seq<char>, reason: Seq<char>) -> Seq<char> {
    "作废单据 "@ + document_no + "："@ + reason
}

/// Document types that a void can reverse.
pub open spec fn spec_voidable(document_type: Seq<char>) -> bool {
    document_type == "inbound"@ || document_type == "outbound"@ || document_type == "adjustment"@
        || document_type == "stocktake"@
}

/// Every plain movement that `load_movements` listed for the document was
/// reversed.
pub open spec fn movements_reversed<F, LM, RM>(
    load_movements: LM,
    reverse_movement: RM,
    document_id: Seq<char>,
    operator: Seq<char>,
    remark: Seq<char>,
) -> bool where
    LM: Fn(&str) -> AppResult<Vec<DocumentMovement<F>>>,
    RM: Fn(&DocumentMovement<F>, &str, &str, &str) -> AppResult<()>,
 {
    exists|d: &str, ms: Vec<DocumentMovement<F>>|
        {
            &&& d@ == document_id
            &&& #[trigger] call_ensures(load_movements, (d,), Ok::<Vec<DocumentMovement<F>>, AppError>(ms))
            &&& forall|i: int|
                0 <= i < ms@.len() ==> movement_reversed(reverse_movement, #[trigger] ms@[i], operator, remark)
        }
}

/// Movement `m` was reversed with the reversed direction, `operator` and
/// `remark`.
pub open spec fn movement_reversed<F, RM: Fn(&DocumentMovement<F>, &str, &str, &str) -> AppResult<()>>(
    reverse_movement: RM,
    m: DocumentMovement<F>,
    operator: Seq<char>,
    remark: Seq<char>,
) -> bool {
    exists|r: &str, o: &str, k: &str, done: AppResult<()>|
        r@ == spec_reverse_direction(m.direction@) && o@ == operator && k@ == remark && #[trigger] call_ensures(
            reverse_movement,
            (&m, r, o, k),
            done,
        ) && done is Ok
}

/// The last stages of voiding `t` once it is marked voided: for a
/// stocktake document its stocktake is marked voided too, an error being
/// the answer; then the audit entry.
pub open spec fn void_after_mark<F, G, FD, HB, LM, RM, MV, MS, AU, LB, BC, VB, RB, RR, SB>(
    steps: VoidSteps<FD, HB, LM, RM, MV, MS, AU>,
    batch_steps: BatchReversal<LB, BC, VB, RB, RR, SB>,
    t: VoidTarget,
    reason: Seq<char>,
    handler: Option<String>,
    r: AppResult<()>,
) -> bool where
    FD: Fn(&str) -> AppResult<Option<VoidTarget>>,
    HB: Fn(&str) -> AppResult<bool>,
    LM: Fn(&str) -> AppResult<Vec<DocumentMovement<F>>>,
    RM: Fn(&DocumentMovement<F>, &str, &str, &str) -> AppResult<()>,
    MV: Fn(&str, &str) -> AppResult<()>,
    MS: Fn(&str) -> AppResult<()>,
    AU: Fn(&str, &str, &str, &str) -> AppResult<()>,
    LB: Fn(&str) -> AppResult<Vec<BatchMovement<G>>>,
    BC: Fn(&BatchMovement<G>) -> AppResult<bool>,
    VB: Fn(&str) -> AppResult<()>,
    RB: Fn(&BatchMovement<G>) -> AppResult<()>,
    RR: Fn(&BatchMovement<G>, &str, &str, &str) -> AppResult<()>,
    SB: Fn(&str) -> AppResult<()>,
 {
    if t.document_type@ == "stocktake"@ {
        exists|i: &str, closed: AppResult<()>|
            {
                &&& i@ == t.id@
                &&& #[trigger] call_ensures(steps.mark_stocktake_voided, (i,), closed)
                &&& match closed {
                    Err(e) => r == Err::<(), AppError>(e),
                    Ok(_) => audit_result(
                        steps.audit,
                        "void_stock_document"@,
                        t.id@,
                        void_summary(t.document_no@, reason),
                        spec_operator(handler),
                        r,
                    ),
                }
            }
    } else {
        audit_result(steps.audit, "void_stock_document"@, t.id@, void_summary(t.document_no@, reason), spec_operator(handler), r)
    }
}

/// The stages of voiding `t` once its stock was reversed: marking it
/// voided with the reason, then `void_after_mark`.
pub open spec fn void_after_reversal<F, G, FD, HB, LM, RM, MV, MS, AU, LB, BC, VB, RB, RR, SB>(
    steps: VoidSteps<FD, HB, LM, RM, MV, MS, AU>,
    batch_steps: BatchReversal<LB, BC, VB, RB, RR, SB>,
    t: VoidTarget,
    reason: Seq<char>,
    handler: Option<String>,
    r: AppResult<()>,
) -> bool where
    FD: Fn(&str) -> AppResult<Option<VoidTarget>>,
    HB: Fn(&str) -> AppResult<bool>,
    LM: Fn(&str) -> AppResult<Vec<DocumentMovement<F>>>,
    RM: Fn(&DocumentMovement<F>, &str, &str, &str) -> AppResult<()>,
    MV: Fn(&str, &str) -> AppResult<()>,
    MS: Fn(&str) -> AppResult<()>,
    AU: Fn(&str, &str, &str, &str) -> AppResult<()>,
    LB: Fn(&str) -> AppResult<Vec<BatchMovement<G>>>,
    BC: Fn(&BatchMovement<G>) -> AppResult<bool>,
    VB: Fn(&str) -> AppResult<()>,
    RB: Fn(&BatchMovement<G>) -> AppResult<()>,
    RR: Fn(&BatchMovement<G>, &str, &str, &str) -> AppResult<()>,
    SB: Fn(&str) -> AppResult<()>,
 {
    exists|i: &str, k: &str, marked: AppResult<()>|
        {
            &&& i@ == t.id@
            &&& k@ == reason
            &&& #[trigger] call_ensures(steps.mark_voided, (i, k), marked)
            &&& match marked {
                Err(e) => r == Err::<(), AppError>(e),
                Ok(_) => void_after_mark(steps, batch_steps, t, reason, handler, r),
            }
        }
}

/// `rev` is an outcome of reversing the stock of `t`: through its batches
/// when it moved stock through batches, else movement by movement.
pub open spec fn reversal_outcome<F, G, FD, HB, LM, RM, MV, MS, AU, LB, BC, VB, RB, RR, SB>(
    steps: VoidSteps<FD, HB, LM, RM, MV, MS, AU>,
    batch_steps: BatchReversal<LB, BC, VB, RB, RR, SB>,
    t: VoidTarget,
    reason: Seq<char>,
    handler: Option<String>,
    batched: bool,
    rev: AppResult<()>,
) -> bool where
    FD: Fn(&str) -> AppResult<Option<VoidTarget>>,
    HB: Fn(&str) -> AppResult<bool>,
    LM: Fn(&str) -> AppResult<Vec<DocumentMovement<F>>>,
    RM: Fn(&DocumentMovement<F>, &str, &str, &str) -> AppResult<()>,
    MV: Fn(&str, &str) -> AppResult<()>,
    MS: Fn(&str) -> AppResult<()>,
    AU: Fn(&str, &str, &str, &str) -> AppResult<()>,
    LB: Fn(&str) -> AppResult<Vec<BatchMovement<G>>>,
    BC: Fn(&BatchMovement<G>) -> AppResult<bool>,
    VB: Fn(&str) -> AppResult<()>,
    RB: Fn(&BatchMovement<G>) -> AppResult<()>,
    RR: Fn(&BatchMovement<G>, &str, &str, &str) -> AppResult<()>,
    SB: Fn(&str) -> AppResult<()>,
 {
    let remark = spec_void_remark(t.document_no@, reason);
    if batched {
        &&& rev is Ok ==> batches_reversed(batch_steps, t.id@, spec_operator(handler), remark)
        &&& rev matches Err(e) ==> batch_reversal_failed(batch_steps, e)
    } else {
        &&& rev is Ok ==> movements_reversed(steps.load_movements, steps.reverse_movement, t.id@, spec_operator(handler), remark)
        &&& rev matches Err(e) ==> (exists|d: &str|
            call_ensures(steps.load_movements, (d,), Err::<Vec<DocumentMovement<F>>, AppError>(e))) || (exists|
            m: &DocumentMovement<F>,
            d: &str,
            o: &str,
            k: &str,
        | call_ensures(steps.reverse_movement, (m, d, o, k), Err::<(), AppError>(e)))
    }
}

/// The stages of voiding `t` once it passed the checks: `has_batch_movements`
/// tells how its stock moved, its error being the answer; then the stock is
/// reversed, an error or refusal of the reversal being the answer; then
/// `void_after_reversal`.
pub open spec fn void_after_check<F, G, FD, HB, LM, RM, MV, MS, AU, LB, BC, VB, RB, RR, SB>(
    steps: VoidSteps<FD, HB, LM, RM, MV, MS, AU>,
    batch_steps: BatchReversal<LB, BC, VB, RB, RR, SB>,
    t: VoidTarget,
    reason: Seq<char>,
    handler: Option<String>,
    r: AppResult<()>,
) -> bool where
    FD: Fn(&str) -> AppResult<Option<VoidTarget>>,
    HB: Fn(&str) -> AppResult<bool>,
    LM: Fn(&str) -> AppResult<Vec<DocumentMovement<F>>>,
    RM: Fn(&DocumentMovement<F>, &str, &str, &str) -> AppResult<()>,
    MV: Fn(&str, &str) -> AppResult<()>,
    MS: Fn(&str) -> AppResult<()>,
    AU: Fn(&str, &str, &str, &str) -> AppResult<()>,
    LB: Fn(&str) -> AppResult<Vec<BatchMovement<G>>>,
    BC: Fn(&BatchMovement<G>) -> AppResult<bool>,
    VB: Fn(&str) -> AppResult<()>,
    RB: Fn(&BatchMovement<G>) -> AppResult<()>,
    RR: Fn(&BatchMovement<G>, &str, &str, &str) -> AppResult<()>,
    SB: Fn(&str) -> AppResult<()>,
 {
    exists|i: &str, answered: AppResult<bool>|
        {
            &&& i@ == t.id@
            &&& #[trigger] call_ensures(steps.has_batch_movements, (i,), answered)
            &&& match answered {
                Err(e) => r == Err::<(), AppError>(e),
                Ok(batched) => exists|rev: AppResult<()>|
                    {
                        &&& #[trigger] reversal_outcome(steps, batch_steps, t, reason, handler, batched, rev)
                        &&& match rev {
                            Err(e) => r == Err::<(), AppError>(e),
                            Ok(_) => void_after_reversal(steps, batch_steps, t, reason, handler, r),
                        }
                    },
            }
        }
}

/// What voiding document `id` gives, the first refusal or error being the
/// answer: finding it (a missing document is refused), refusing one that
/// is not confirmed or of a type that cannot be reversed, reversing its
/// stock, marking it voided and auditing the void.
pub open spec fn void_result<F, G, FD, HB, LM, RM, MV, MS, AU, LB, BC, VB, RB, RR, SB>(
    steps: VoidSteps<FD, HB, LM, RM, MV, MS, AU>,
    batch_steps: BatchReversal<LB, BC, VB, RB, RR, SB>,
    id: Seq<char>,
    reason: Seq<char>,
    handler: Option<String>,
    r: AppResult<()>,
) -> bool where
    FD: Fn(&str) -> AppResult<Option<VoidTarget>>,
    HB: Fn(&str) -> AppResult<bool>,
    LM: Fn(&str) -> AppResult<Vec<DocumentMovement<F>>>,
    RM: Fn(&DocumentMovement<F>, &str, &str, &str) -> AppResult<()>,
    MV: Fn(&str, &str) -> AppResult<()>,
    MS: Fn(&str) -> AppResult<()>,
    AU: Fn(&str, &str, &str, &str) -> AppResult<()>,
    LB: Fn(&str) -> AppResult<Vec<BatchMovement<G>>>,
    BC: Fn(&BatchMovement<G>) -> AppResult<bool>,
    VB: Fn(&str) -> AppResult<()>,
    RB: Fn(&BatchMovement<G>) -> AppResult<()>,
    RR: Fn(&BatchMovement<G>, &str, &str, &str) -> AppResult<()>,
    SB: Fn(&str) -> AppResult<()>,
 {
    exists|d: &str, found: AppResult<Option<VoidTarget>>|
        {
            &&& d@ == id
            &&& #[trigger] call_ensures(steps.find, (d,), found)
            &&& match found {
                Err(e) => r == Err::<(), AppError>(e),
                Ok(None) => r matches Err(e) && is_validation(e, "单据不存在"@),
                Ok(Some(t)) => if t.status@ != "confirmed"@ {
                    r matches Err(e) && is_validation(e, "只能作废已确认单据"@)
                } else if !spec_voidable(t.document_type@) {
                    r matches Err(e) && is_validation(e, "当前单据类型暂不支持作废冲正"@)
                } else {
                    void_after_check(steps, batch_steps, t, reason, handler, r)
                },
            }
        }
}

/// Voids a confirmed document with `reason` by `handler`: it must exist, be
/// confirmed and be of a type that can be reversed.  A document that moved
/// stock through batches has them reversed; an older one has each of its
/// movements reversed.  The document is then marked voided (with its
/// stocktake, for a stocktake document) and the void is audited.
pub fn void_stock_document<F, G, FD, HB, LM, RM, MV, MS, AU, LB, BC, VB, RB, RR, SB>(
    document_id: &str,
    reason: &str,
    handler: Option<String>,
    steps: &VoidSteps<FD, HB, LM, RM, MV, MS, AU>,
    batch_steps: &BatchReversal<LB, BC, VB, RB, RR, SB>,
) -> (r: AppResult<()>) where
    FD: Fn(&str) -> AppResult<Option<VoidTarget>>,
    HB: Fn(&str) -> AppResult<bool>,
    LM: Fn(&str) -> AppResult<Vec<DocumentMovement<F>>>,
    RM: Fn(&DocumentMovement<F>, &str, &str, &str) -> AppResult<()>,
    MV: Fn(&str, &str) -> AppResult<()>,
    MS: Fn(&str) -> AppResult<()>,
    AU: Fn(&str, &str, &str, &str) -> AppResult<()>,
    LB: Fn(&str) -> AppResult<Vec<BatchMovement<G>>>,
    BC: Fn(&BatchMovement<G>) -> AppResult<bool>,
    VB: Fn(&str) -> AppResult<()>,
    RB: Fn(&BatchMovement<G>) -> AppResult<()>,
    RR: Fn(&BatchMovement<G>, &str, &str, &str) -> AppResult<()>,
    SB: Fn(&str) -> AppResult<()>,

    requires
        forall|d: &str| call_requires(steps.find, (d,)),
        forall|d: &str| call_requires(steps.has_batch_movements, (d,)),
        forall|d: &str| call_requires(steps.load_movements, (d,)),
        forall|m: &DocumentMovement<F>, d: &str, o: &str, k: &str| call_requires(steps.reverse_movement, (m, d, o, k)),
        forall|d: &str, k: &str| call_requires(steps.mark_voided, (d, k)),
        forall|d: &str| call_requires(steps.mark_stocktake_voided, (d,)),
        forall|a: &str, i: &str, s: &str, o: &str| call_requires(steps.audit, (a, i, s, o)),
        forall|d: &str| call_requires(batch_steps.load, (d,)),
        forall|m: &BatchMovement<G>| call_requires(batch_steps.consumed, (m,)),
        forall|b: &str| call_requires(batch_steps.void_batch, (b,)),
        forall|m: &BatchMovement<G>| call_requires(batch_steps.restore_batch, (m,)),
        forall|m: &BatchMovement<G>, d: &str, o: &str, k: &str| call_requires(batch_steps.record, (m, d, o, k)),
        forall|s: &str| call_requires(batch_steps.sync_balance, (s,)),
    ensures
        r is Ok ==> exists|d: &str, t: VoidTarget|
            {
                &&& d@ == document_id@
                &&& #[trigger] call_ensures(steps.find, (d,), Ok::<Option<VoidTarget>, AppError>(Some(t)))
                &&& t.status@ == "confirmed"@
                &&& spec_voidable(t.document_type@)
                &&& exists|i: &str, batched: bool|
                    {
                        &&& i@ == t.id@
                        &&& #[trigger] call_ensures(steps.has_batch_movements, (i,), Ok::<bool, AppError>(batched))
                        &&& batched ==> batches_reversed(
                            *batch_steps,
                            t.id@,
                            spec_operator(handler),
                            spec_void_remark(t.document_no@, reason@),
                        )
                        &&& !batched ==> movements_reversed(
                            steps.load_movements,
                            steps.reverse_movement,
                            t.id@,
                            spec_operator(handler),
                            spec_void_remark(t.document_no@, reason@),
                        )
                    }
                &&& exists|i: &str, k: &str, done: AppResult<()>|
                    i@ == t.id@ && k@ == reason@ && #[trigger] call_ensures(steps.mark_voided, (i, k), done) && done is Ok
                &&& t.document_type@ == "stocktake"@ ==> exists|i: &str, done: AppResult<()>|
                    i@ == t.id@ && #[trigger] call_ensures(steps.mark_stocktake_voided, (i,), done) && done is Ok
                &&& audited(
                    steps.audit,
                    "void_stock_document"@,
                    t.id@,
                    void_summary(t.document_no@, reason@),
                    spec_operator(handler),
                )
            },
        void_result(*steps, *batch_steps, document_id@, reason@, handler, r),
{
    let found = (steps.find)(document_id);
    assert(call_ensures(steps.find, (document_id,), found));
    let target = match found {
        Err(e) => {
            return Err(e);
        },
        Ok(None) => {
            return Err(validation("单据不存在"));
        },
        Ok(Some(t)) => t,
    };
    assert(call_ensures(steps.find, (document_id,), Ok::<Option<VoidTarget>, AppError>(Some(target))));
    let ghost gt = target;
    let voidable = check_voidable(target.status.as_str(), target.document_type.as_str());
    if let Err(e) = voidable {
        return Err(e);
    }
    let id = target.id.as_str();
    let answered = (steps.has_batch_movements)(id);
    assert(call_ensures(steps.has_batch_movements, (id,), answered));
    let batched = match answered {
        Ok(b) => b,
        Err(e) => {
            assert(void_after_check(*steps, *batch_steps, gt, reason@, handler, Err::<(), AppError>(e)));
            return Err(e);
        },
    };
    assert(call_ensures(steps.has_batch_movements, (id,), Ok::<bool, AppError>(batched)));
    let rev = if batched {
        reverse_batch_document(id, target.document_no.as_str(), reason, handler.clone(), batch_steps)
    } else {
        reverse_movements(id, target.document_no.as_str(), reason, handler.clone(), &steps.load_movements, &steps.reverse_movement)
    };
    assert(reversal_outcome(*steps, *batch_steps, gt, reason@, handler, batched, rev));
    if let Err(e) = rev {
        assert(void_after_check(*steps, *batch_steps, gt, reason@, handler, Err::<(), AppError>(e)));
        return Err(e);
    }
    let marked = (steps.mark_voided)(id, reason);
    assert(call_ensures(steps.mark_voided, (id, reason), marked));
    let ghost gm = marked;
    let closed: AppResult<()> = match marked {
        Err(e) => Err(e),
        Ok(_) => if same_text(target.document_type.as_str(), "stocktake") {
            let closed = (steps.mark_stocktake_voided)(id);
            assert(call_ensures(steps.mark_stocktake_voided, (id,), closed));
            closed
        } else {
            Ok(())
        },
    };
    let ghost gc = closed;
    if let Err(e) = closed {
        proof {
            if gm is Ok {
                assert(void_after_mark(*steps, *batch_steps, gt, reason@, handler, Err::<(), AppError>(e)));
            }
        }
        assert(void_after_reversal(*steps, *batch_steps, gt, reason@, handler, Err::<(), AppError>(e)));
        assert(void_after_check(*steps, *batch_steps, gt, reason@, handler, Err::<(), AppError>(e)));
        return Err(e);
    }
    let summary = String::from_str("作废单据 ").concat(target.document_no.as_str()).concat("：").concat(reason);
    let operator = operator_name(handler);
    let (a, s, o) = ("void_stock_document", summary.as_str(), operator.as_str());
    proof {
        reveal_strlit("void_stock_document");
    }
    let written = (steps.audit)(a, id, s, o);
    assert(call_ensures(steps.audit, (a, id, s, o), written));
    assert(void_after_mark(*steps, *batch_steps, gt, reason@, handler, written));
    assert(void_after_reversal(*steps, *batch_steps, gt, reason@, handler, written));
    assert(void_after_check(*steps, *batch_steps, gt, reason@, handler, written));
    if let Err(e) = written {
        return Err(e);
    }
    proof {
        let u: () = written->Ok_0;
        assert(u == ());
        assert(written == Ok::<(), AppError>(()));
    }
    Ok(())
}

fn reverse_movements<F, LM, RM>(
    document_id: &str,
    document_no: &str,
    reason: &str,
    handler: Option<String>,
    load_movements: &LM,
    reverse_movement: &RM,
) -> (r: AppResult<()>) where
    LM: Fn(&str) -> AppResult<Vec<DocumentMovement<F>>>,
    RM: Fn(&DocumentMovement<F>, &str, &str, &str) -> AppResult<()>,

    requires
        forall|d: &str| call_requires(*load_movements, (d,)),
        forall|m: &DocumentMovement<F>, d: &str, o: &str, k: &str| call_requires(*reverse_movement, (m, d, o, k)),
    ensures
        r is Ok ==> movements_reversed(
            *load_movements,
            *reverse_movement,
            document_id@,
            spec_operator(handler),
            spec_void_remark(document_no@, reason@),
        ),
        r matches Err(e) ==> (exists|d: &str| call_ensures(*load_movements, (d,), Err::<Vec<DocumentMovement<F>>, AppError>(e)))
            || (exists|m: &DocumentMovement<F>, d: &str, o: &str, k: &str|
            call_ensures(*reverse_movement, (m, d, o, k), Err::<(), AppError>(e))),
{
    let loaded = load_movements(document_id);
    assert(call_ensures(*load_movements, (document_id,), loaded));
    let movements = match loaded {
        Ok(ms) => ms,
        Err(e) => {
            return Err(e);
        },
    };
    assert(call_ensures(*load_movements, (document_id,), Ok::<Vec<DocumentMovement<F>>, AppError>(movements)));
    let operator = operator_name(handler);
    let remark = void_remark(document_no, reason);
    let ghost op = spec_operator(handler);
    let ghost rk = spec_void_remark(document_no@, reason@);
    let mut i: usize = 0;
    while i < movements.len()
        invariant
            i <= movements.len(),
            operator@ == op,
            remark@ == rk,
            forall|m: &DocumentMovement<F>, d: &str, o: &str, k: &str| call_requires(*reverse_movement, (m, d, o, k)),
            forall|j: int| 0 <= j < i ==> movement_reversed(*reverse_movement, #[trigger] movements@[j], op, rk),
        decreases movements.len() - i,
    {
        let m = &movements[i];
        let reversed = reverse_direction(m.direction.as_str());
        let (o, k) = (operator.as_str(), remark.as_str());
        let done = reverse_movement(m, reversed, o, k);
        assert(call_ensures(*reverse_movement, (m, reversed, o, k), done));
        if let Err(e) = done {
            return Err(e);
        }
        assert(movement_reversed(*reverse_movement, movements@[i as int], op, rk));
        i = i + 1;
    }
    Ok(())
}

/// The header of a stock document as a request gives it.
pub struct HeaderRequest {
    pub document_type: String,
    pub outbound_kind: Option<String>,
    pub business_date: String,
    pub department_id: Option<String>,
    pub supplier_id: Option<String>,
    pub handler: Option<String>,
    pub purpose: Option<String>,
    pub approval_request_id: Option<String>,
    pub remark: Option<String>,
}

/// The header of a stock document as it is stored, with the names of its
/// department and supplier as they were when it was written.
pub struct DocumentHeader {
    pub document_type: String,
    pub outbound_kind: Option<String>,
    pub business_date: String,
    pub department_id: Option<String>,
    pub department_name: Option<String>,
    pub supplier_id: Option<String>,
    pub supplier_name: Option<String>,
    pub handler: Option<String>,
    pub purpose: Option<String>,
    pub approval_request_id: Option<String>,
    pub remark: Option<String>,
}

/// `name` is the name that `find_name` gave for record `id`; no record
/// gives no name and needs no lookup.
pub open spec fn name_snapshot<N: Fn(&str) -> AppResult<Option<String>>>(
    find_name: N,
    id: Option<Seq<char>>,
    name: Option<String>,
) -> bool {
    match id {
        None => name is None,
        Some(i) => exists|s: &str| s@ == i && #[trigger] call_ensures(find_name, (s,), Ok::<Option<String>, AppError>(name)),
    }
}

/// `h` is the stored form of `request`: the type and date as given, the
/// outbound kind normalized, the ids and texts trimmed and dropped when
/// blank, and the names of the department and supplier looked up.
pub open spec fn header_prepared<D, S>(request: HeaderRequest, h: DocumentHeader, department_name: D, supplier_name: S) -> bool where
    D: Fn(&str) -> AppResult<Option<String>>,
    S: Fn(&str) -> AppResult<Option<String>>,
 {
    &&& h.document_type@ == request.document_type@
    &&& h.business_date@ == request.business_date@
    &&& spec_outbound_kind(request.document_type@, opt_view(request.outbound_kind)) == Ok::<
        Option<Seq<char>>,
        Seq<char>,
    >(opt_view(h.outbound_kind))
    &&& opt_view(h.department_id) == spec_blank_to_none(opt_view(request.department_id))
    &&& opt_view(h.supplier_id) == spec_blank_to_none(opt_view(request.supplier_id))
    &&& name_snapshot(department_name, opt_view(h.department_id), h.department_name)
    &&& name_snapshot(supplier_name, opt_view(h.supplier_id), h.supplier_name)
    &&& opt_view(h.handler) == spec_blank_to_none(opt_view(request.handler))
    &&& opt_view(h.purpose) == spec_blank_to_none(opt_view(request.purpose))
    &&& opt_view(h.approval_request_id) == spec_blank_to_none(opt_view(request.approval_request_id))
    &&& opt_view(h.remark) == spec_blank_to_none(opt_view(request.remark))
}

/// What looking up the name of record `id` gives: no name without an id,
/// else what `find_name` answered.
pub open spec fn name_result<N: Fn(&str) -> AppResult<Option<String>>>(
    find_name: N,
    id: Option<Seq<char>>,
    res: AppResult<Option<String>>,
) -> bool {
    match id {
        None => res == Ok::<Option<String>, AppError>(None),
        Some(i) => exists|s: &str| s@ == i && #[trigger] call_ensures(find_name, (s,), res),
    }
}

/// What preparing the stored header of `request` gives: an outbound kind
/// that does not exist is refused before any lookup; then the department's
/// and the supplier's names are looked up in turn, an error of either being
/// the answer; else the prepared header.
pub open spec fn header_result<D, S>(request: HeaderRequest, department_name: D, supplier_name: S, res: AppResult<DocumentHeader>) -> bool where
    D: Fn(&str) -> AppResult<Option<String>>,
    S: Fn(&str) -> AppResult<Option<String>>,
 {
    match spec_outbound_kind(request.document_type@, opt_view(request.outbound_kind)) {
        Err(m) => res matches Err(e) && is_validation(e, m),
        Ok(_) => exists|dept: AppResult<Option<String>>|
            {
                &&& #[trigger] name_result(department_name, spec_blank_to_none(opt_view(request.department_id)), dept)
                &&& match dept {
                    Err(e) => res == Err::<DocumentHeader, AppError>(e),
                    Ok(_) => exists|sup: AppResult<Option<String>>|
                        {
                            &&& #[trigger] name_result(supplier_name, spec_blank_to_none(opt_view(request.supplier_id)), sup)
                            &&& match sup {
                                Err(e) => res == Err::<DocumentHeader, AppError>(e),
                                Ok(_) => res matches Ok(h) && header_prepared(request, h, department_name, supplier_name),
                            }
                        },
                }
            },
    }
}

fn snapshot_name<N: Fn(&str) -> AppResult<Option<String>>>(find_name: &N, id: &Option<String>) -> (r: AppResult<
    Option<String>,
>)
    requires
        forall|s: &str| call_requires(*find_name, (s,)),
    ensures
        r matches Ok(n) ==> name_snapshot(*find_name, opt_view(*id), n),
        name_result(*find_name, opt_view(*id), r),
{
    match id {
        None => Ok(None),
        Some(i) => {
            let s = i.as_str();
            let found = find_name(s);
            assert(call_ensures(*find_name, (s,), found));
            proof {
                if found is Ok {
                    assert(call_ensures(*find_name, (s,), Ok::<Option<String>, AppError>(found->Ok_0)));
                }
            }
            found
        },
    }
}

/// Prepares the stored header of a document: the outbound kind is
/// normalized first, then the department's and the supplier's names are
/// looked up.
pub fn prepare_header<D, S>(request: HeaderRequest, department_name: &D, supplier_name: &S) -> (r: AppResult<
    DocumentHeader,
>) where
    D: Fn(&str) -> AppResult<Option<String>>,
    S: Fn(&str) -> AppResult<Option<String>>,

    requires
        forall|s: &str| call_requires(*department_name, (s,)),
        forall|s: &str| call_requires(*supplier_name, (s,)),
    ensures
        header_result(request, *department_name, *supplier_name, r),
{
    let ghost g = request;
    let HeaderRequest {
        document_type,
        outbound_kind,
        business_date,
        department_id,
        supplier_id,
        handler,
        purpose,
        approval_request_id,
        remark,
    } = request;
    let department_id = blank_to_none(department_id);
    let supplier_id = blank_to_none(supplier_id);
    let outbound_kind = normalized_outbound_kind(document_type.as_str(), opt_as_str(&outbound_kind))?;
    let dept = snapshot_name(department_name, &department_id);
    let department_name = match dept {
        Ok(n) => n,
        Err(e) => {
            return Err(e);
        },
    };
    let sup = snapshot_name(supplier_name, &supplier_id);
    let supplier_name = match sup {
        Ok(n) => n,
        Err(e) => {
            return Err(e);
        },
    };
    Ok(DocumentHeader {
        document_type,
        outbound_kind,
        business_date,
        department_id,
        department_name,
        supplier_id,
        supplier_name,
        handler: blank_to_none(handler),
        purpose: blank_to_none(purpose),
        approval_request_id: blank_to_none(approval_request_id),
        remark: blank_to_none(remark),
    })
}

/// How the price of a document line is recorded: as a purchase (inbound),
/// as a sale (a sale to guests) or as a cost (every other outbound line and
/// other documents).
#[derive(PartialEq, Eq, Structural, Clone, Copy, Debug)]
pub enum PricingRole {
    Purchase,
    Sale,
    Cost,
}

/// The pricing role of the lines of a document.
pub open spec fn spec_pricing_role(document_type: Seq<char>, outbound_kind: Option<Seq<char>>) -> PricingRole {
    if document_type == "inbound"@ {
        PricingRole::Purchase
    } else if document_type == "outbound"@ && outbound_kind == Some("guest_sale"@) {
        PricingRole::Sale
    } else {
        PricingRole::Cost
    }
}

/// The pricing role of the lines of a document of `document_type` with the
/// (normalized) `outbound_kind`.
pub fn pricing_role(document_type: &str, outbound_kind: Option<&str>) -> (r: PricingRole)
    ensures
        r == spec_pricing_role(document_type@, opt_str_view(outbound_kind)),
{
    proof {
        reveal_strlit("guest_sale");
    }
    if same_text(document_type, "inbound") {
        PricingRole::Purchase
    } else if same_text(document_type, "outbound") && match outbound_kind {
        Some(k) => same_text(k, "guest_sale"),
        None => false,
    } {
        PricingRole::Sale
    } else {
        PricingRole::Cost
    }
}

/// `no` is the number given to the next document of a type and date:
/// `count_numbered` counted `n` documents whose numbers match the pattern of
/// that type and date, and the number is the stem and `n + 1`.
pub open spec fn document_numbered<C: Fn(&str) -> AppResult<u64>>(
    count_numbered: C,
    document_type: Seq<char>,
    business_date: Seq<char>,
    no: Seq<char>,
) -> bool {
    spec_document_prefix(document_type) matches Ok(p) && exists|pattern: &str, n: u64|
        pattern@ == spec_document_stem(p, business_date) + "%"@ && #[trigger] call_ensures(
            count_numbered,
            (pattern,),
            Ok::<u64, AppError>(n),
        ) && no == spec_document_stem(p, business_date) + pad_zeros(spec_decimal((n + 1) as nat), 4)
}

/// What numbering the next document of a type and date gives: a type
/// without numbers is refused before anything is counted; otherwise
/// `count_numbered` counts the documents matching the pattern of the type
/// and date, its error being the answer, and the number is the stem and
/// the count plus one.
pub open spec fn numbering_result<C: Fn(&str) -> AppResult<u64>>(
    count_numbered: C,
    document_type: Seq<char>,
    business_date: Seq<char>,
    res: AppResult<String>,
) -> bool {
    match spec_document_prefix(document_type) {
        Err(m) => res matches Err(e) && is_validation(e, m),
        Ok(p) => exists|pattern: &str, counted: AppResult<u64>|
            {
                &&& pattern@ == spec_document_stem(p, business_date) + "%"@
                &&& #[trigger] call_ensures(count_numbered, (pattern,), counted)
                &&& match counted {
                    Err(e) => res == Err::<String, AppError>(e),
                    Ok(n) => res matches Ok(no) && no@ == spec_document_stem(p, business_date) + pad_zeros(
                        spec_decimal((n + 1) as nat),
                        4,
                    ),
                }
            },
    }
}

/// Numbers the next document of a type and date: `count_numbered` counts
/// the documents whose numbers match a pattern.  A type without numbers is
/// refused before anything is counted.
pub fn assign_document_no<C: Fn(&str) -> AppResult<u64>>(
    document_type: &str,
    business_date: &str,
    count_numbered: &C,
) -> (r: AppResult<String>)
    requires
        forall|p: &str| call_requires(*count_numbered, (p,)),
        forall|p: &str, n: u64| call_ensures(*count_numbered, (p,), Ok::<u64, AppError>(n)) ==> n < u64::MAX,
    ensures
        r matches Ok(no) ==> document_numbered(*count_numbered, document_type@, business_date@, no@),
        numbering_result(*count_numbered, document_type@, business_date@, r),
{
    let pattern = match document_no_like_pattern(document_type, business_date) {
        Ok(x) => x,
        Err(e) => {
            return Err(e);
        },
    };
    let p = pattern.as_str();
    let counted = count_numbered(p);
    assert(call_ensures(*count_numbered, (p,), counted));
    let n = match counted {
        Ok(n) => n,
        Err(e) => {
            return Err(e);
        },
    };
    assert(call_ensures(*count_numbered, (p,), Ok::<u64, AppError>(n)));
    next_document_no(document_type, business_date, n)
}

/// A saved document as a draft save finds it.
pub struct DraftRecord {
    pub document_no: String,
    pub status: String,
    pub document_type: String,
}

/// The steps of saving a draft: the name lookups of `prepare_header`;
/// `find` finds a saved document by id; `update_header` rewrites a draft's
/// header; `clear_lines` deletes a document's lines; `count_numbered`
/// counts the documents whose numbers match a pattern; `insert_header`
/// writes a new draft (id, number, header); `insert_line` writes a line of
/// a document, priced in the given role; `audit` writes an audit entry.
pub struct DraftSteps<D, S, FD, UH, CL, CN, IH, IL, AU> {
    pub department_name: D,
    pub supplier_name: S,
    pub find: FD,
    pub update_header: UH,
    pub clear_lines: CL,
    pub count_numbered: CN,
    pub insert_header: IH,
    pub insert_line: IL,
    pub audit: AU,
}

/// `f` was called with `id` and `h` and succeeded.
pub open spec fn header_written<W: Fn(&str, &DocumentHeader) -> AppResult<()>>(f: W, id: Seq<char>, h: DocumentHeader) -> bool {
    exists|i: &str, done: AppResult<()>| i@ == id && #[trigger] call_ensures(f, (i, &h), done) && done is Ok
}

/// `f` was called with `id` and succeeded.
pub open spec fn done_for<W: Fn(&str) -> AppResult<()>>(f: W, id: Seq<char>) -> bool {
    exists|i: &str, done: AppResult<()>| i@ == id && #[trigger] call_ensures(f, (i,), done) && done is Ok
}

/// Line `line` of document `id` was written, priced in `role`.
pub open spec fn line_written<L, IL: Fn(&str, PricingRole, L) -> AppResult<()>>(
    insert_line: IL,
    id: Seq<char>,
    role: PricingRole,
    line: L,
) -> bool {
    exists|i: &str, done: AppResult<()>| i@ == id && #[trigger] call_ensures(insert_line, (i, role, line), done) && done is Ok
}

/// What a successful draft save did, for the document that got id `id`.
pub open spec fn draft_saved<L, D, S, FD, UH, CL, CN, IH, IL, AU>(
    steps: DraftSteps<D, S, FD, UH, CL, CN, IH, IL, AU>,
    document_id: Option<String>,
    header: HeaderRequest,
    lines: Seq<L>,
    id: Seq<char>,
) -> bool where
    D: Fn(&str) -> AppResult<Option<String>>,
    S: Fn(&str) -> AppResult<Option<String>>,
    FD: Fn(&str) -> AppResult<Option<DraftRecord>>,
    UH: Fn(&str, &DocumentHeader) -> AppResult<()>,
    CL: Fn(&str) -> AppResult<()>,
    CN: Fn(&str) -> AppResult<u64>,
    IH: Fn(&str, &str, &DocumentHeader) -> AppResult<()>,
    IL: Fn(&str, PricingRole, L) -> AppResult<()>,
    AU: Fn(&str, &str, &str, &str) -> AppResult<()>,
 {
    exists|h: DocumentHeader, no: Seq<char>, d: &str, found: Option<DraftRecord>|
            #![trigger header_prepared(header, h, steps.department_name, steps.supplier_name), call_ensures(steps.find, (d,), Ok::<Option<DraftRecord>, AppError>(found)), audited(steps.audit, "save_stock_document_draft"@, id, no, spec_operator(header.handler))]
            {
                &&& id_for(document_id, id)
                &&& header_prepared(header, h, steps.department_name, steps.supplier_name)
                &&& d@ == id
                &&& call_ensures(steps.find, (d,), Ok::<Option<DraftRecord>, AppError>(found))
                &&& match found {
                    Some(saved) => {
                        &&& saved.status@ == "draft"@
                        &&& saved.document_type@ == header.document_type@
                        &&& no == saved.document_no@
                        &&& header_written(steps.update_header, id, h)
                        &&& done_for(steps.clear_lines, id)
                    },
                    None => {
                        &&& document_numbered(steps.count_numbered, header.document_type@, header.business_date@, no)
                        &&& exists|i: &str, n: &str, done: AppResult<()>|
                            i@ == id && n@ == no && #[trigger] call_ensures(steps.insert_header, (i, n, &h), done) && done is Ok
                    },
                }
                &&& forall|k: int|
                    0 <= k < lines.len() ==> line_written(
                        steps.insert_line,
                        id,
                        spec_pricing_role(h.document_type@, opt_view(h.outbound_kind)),
                        #[trigger] lines[k],
                    )
                &&& audited(steps.audit, "save_stock_document_draft"@, id, no, spec_operator(header.handler))
            }
}

/// The stages of saving draft `id` numbered `no` once its header `h` is
/// written: its lines in order, then the audit entry; the answer is the
/// first error, or else the id.
pub open spec fn draft_after_header<L, D, S, FD, UH, CL, CN, IH, IL, AU>(
    steps: DraftSteps<D, S, FD, UH, CL, CN, IH, IL, AU>,
    id: Seq<char>,
    no: Seq<char>,
    h: DocumentHeader,
    header: HeaderRequest,
    lines: Seq<L>,
    r: AppResult<String>,
) -> bool where
    D: Fn(&str) -> AppResult<Option<String>>,
    S: Fn(&str) -> AppResult<Option<String>>,
    FD: Fn(&str) -> AppResult<Option<DraftRecord>>,
    UH: Fn(&str, &DocumentHeader) -> AppResult<()>,
    CL: Fn(&str) -> AppResult<()>,
    CN: Fn(&str) -> AppResult<u64>,
    IH: Fn(&str, &str, &DocumentHeader) -> AppResult<()>,
    IL: Fn(&str, PricingRole, L) -> AppResult<()>,
    AU: Fn(&str, &str, &str, &str) -> AppResult<()>,
 {
    exists|written: AppResult<()>|
        {
            &&& #[trigger] lines_written_result(
                steps.insert_line,
                id,
                spec_pricing_role(h.document_type@, opt_view(h.outbound_kind)),
                lines,
                written,
            )
            &&& match written {
                Err(e) => r == Err::<String, AppError>(e),
                Ok(_) => exists|audited: AppResult<()>|
                    {
                        &&& #[trigger] audit_result(
                            steps.audit,
                            "save_stock_document_draft"@,
                            id,
                            no,
                            spec_operator(header.handler),
                            audited,
                        )
                        &&& match audited {
                            Err(e) => r == Err::<String, AppError>(e),
                            Ok(_) => r matches Ok(x) && x@ == id,
                        }
                    },
            }
        }
}

/// The stages of saving draft `id` over the document `saved` found under
/// that id: one that is no longer a draft, or a draft of another type, is
/// refused; else its header is rewritten and its lines cleared, then
/// `draft_after_header` under its number.
pub open spec fn draft_over_saved<L, D, S, FD, UH, CL, CN, IH, IL, AU>(
    steps: DraftSteps<D, S, FD, UH, CL, CN, IH, IL, AU>,
    id: Seq<char>,
    saved: DraftRecord,
    h: DocumentHeader,
    header: HeaderRequest,
    lines: Seq<L>,
    r: AppResult<String>,
) -> bool where
    D: Fn(&str) -> AppResult<Option<String>>,
    S: Fn(&str) -> AppResult<Option<String>>,
    FD: Fn(&str) -> AppResult<Option<DraftRecord>>,
    UH: Fn(&str, &DocumentHeader) -> AppResult<()>,
    CL: Fn(&str) -> AppResult<()>,
    CN: Fn(&str) -> AppResult<u64>,
    IH: Fn(&str, &str, &DocumentHeader) -> AppResult<()>,
    IL: Fn(&str, PricingRole, L) -> AppResult<()>,
    AU: Fn(&str, &str, &str, &str) -> AppResult<()>,
 {
    if saved.status@ != "draft"@ {
        r matches Err(e) && is_validation(e, "只能编辑草稿单据"@)
    } else if saved.document_type@ != h.document_type@ {
        r matches Err(e) && is_validation(e, "草稿单据类型不能变更"@)
    } else {
        exists|d: &str, updated: AppResult<()>|
            {
                &&& d@ == id
                &&& #[trigger] call_ensures(steps.update_header, (d, &h), updated)
                &&& match updated {
                    Err(e) => r == Err::<String, AppError>(e),
                    Ok(_) => exists|c: &str, cleared: AppResult<()>|
                        {
                            &&& c@ == id
                            &&& #[trigger] call_ensures(steps.clear_lines, (c,), cleared)
                            &&& match cleared {
                                Err(e) => r == Err::<String, AppError>(e),
                                Ok(_) => draft_after_header(steps, id, saved.document_no@, h, header, lines, r),
                            }
                        },
                }
            }
    }
}

/// The stages of saving a new draft `id` once it was numbered `no`:
/// writing its header, then `draft_after_header`.
pub open spec fn draft_after_number<L, D, S, FD, UH, CL, CN, IH, IL, AU>(
    steps: DraftSteps<D, S, FD, UH, CL, CN, IH, IL, AU>,
    id: Seq<char>,
    no: Seq<char>,
    h: DocumentHeader,
    header: HeaderRequest,
    lines: Seq<L>,
    r: AppResult<String>,
) -> bool where
    D: Fn(&str) -> AppResult<Option<String>>,
    S: Fn(&str) -> AppResult<Option<String>>,
    FD: Fn(&str) -> AppResult<Option<DraftRecord>>,
    UH: Fn(&str, &DocumentHeader) -> AppResult<()>,
    CL: Fn(&str) -> AppResult<()>,
    CN: Fn(&str) -> AppResult<u64>,
    IH: Fn(&str, &str, &DocumentHeader) -> AppResult<()>,
    IL: Fn(&str, PricingRole, L) -> AppResult<()>,
    AU: Fn(&str, &str, &str, &str) -> AppResult<()>,
 {
    exists|i: &str, n: &str, inserted: AppResult<()>|
        {
            &&& i@ == id
            &&& n@ == no
            &&& #[trigger] call_ensures(steps.insert_header, (i, n, &h), inserted)
            &&& match inserted {
                Err(e) => r == Err::<String, AppError>(e),
                Ok(_) => draft_after_header(steps, id, no, h, header, lines, r),
            }
        }
}

/// The stages of saving draft `id` once its header `h` is prepared:
/// `find` looks for a saved document under the id; one found is handled by
/// `draft_over_saved`, else the new draft is numbered, its refusal or error
/// being the answer, then `draft_after_number`.
pub open spec fn draft_after_prepare<L, D, S, FD, UH, CL, CN, IH, IL, AU>(
    steps: DraftSteps<D, S, FD, UH, CL, CN, IH, IL, AU>,
    id: Seq<char>,
    h: DocumentHeader,
    header: HeaderRequest,
    lines: Seq<L>,
    r: AppResult<String>,
) -> bool where
    D: Fn(&str) -> AppResult<Option<String>>,
    S: Fn(&str) -> AppResult<Option<String>>,
    FD: Fn(&str) -> AppResult<Option<DraftRecord>>,
    UH: Fn(&str, &DocumentHeader) -> AppResult<()>,
    CL: Fn(&str) -> AppResult<()>,
    CN: Fn(&str) -> AppResult<u64>,
    IH: Fn(&str, &str, &DocumentHeader) -> AppResult<()>,
    IL: Fn(&str, PricingRole, L) -> AppResult<()>,
    AU: Fn(&str, &str, &str, &str) -> AppResult<()>,
 {
    exists|d: &str, looked: AppResult<Option<DraftRecord>>|
        {
            &&& d@ == id
            &&& #[trigger] call_ensures(steps.find, (d,), looked)
            &&& match looked {
                Err(e) => r == Err::<String, AppError>(e),
                Ok(Some(saved)) => draft_over_saved(steps, id, saved, h, header, lines, r),
                Ok(None) => exists|numbered: AppResult<String>|
                    {
                        &&& #[trigger] numbering_result(steps.count_numbered, h.document_type@, h.business_date@, numbered)
                        &&& match numbered {
                            Err(e) => r == Err::<String, AppError>(e),
                            Ok(no) => draft_after_number(steps, id, no@, h, header, lines, r),
                        }
                    },
            }
        }
}

/// What saving a draft gives, the first refusal or error being the answer:
/// preparing the header; finding a saved document under the id (the one
/// given, or a fresh one) and checking it, or numbering a new one; writing
/// the header (rewriting and clearing a saved draft's), the lines and the
/// audit entry; or else the id.
pub open spec fn draft_result<L, D, S, FD, UH, CL, CN, IH, IL, AU>(
    steps: DraftSteps<D, S, FD, UH, CL, CN, IH, IL, AU>,
    document_id: Option<String>,
    header: HeaderRequest,
    lines: Seq<L>,
    r: AppResult<String>,
) -> bool where
    D: Fn(&str) -> AppResult<Option<String>>,
    S: Fn(&str) -> AppResult<Option<String>>,
    FD: Fn(&str) -> AppResult<Option<DraftRecord>>,
    UH: Fn(&str, &DocumentHeader) -> AppResult<()>,
    CL: Fn(&str) -> AppResult<()>,
    CN: Fn(&str) -> AppResult<u64>,
    IH: Fn(&str, &str, &DocumentHeader) -> AppResult<()>,
    IL: Fn(&str, PricingRole, L) -> AppResult<()>,
    AU: Fn(&str, &str, &str, &str) -> AppResult<()>,
 {
    exists|id: Seq<char>, prepared: AppResult<DocumentHeader>|
        #![trigger id_for(document_id, id), header_result(header, steps.department_name, steps.supplier_name, prepared)]
        {
            &&& id_for(document_id, id)
            &&& header_result(header, steps.department_name, steps.supplier_name, prepared)
            &&& match prepared {
                Err(e) => r == Err::<String, AppError>(e),
                Ok(h) => draft_after_prepare(steps, id, h, header, lines, r),
            }
        }
}

/// Saves a draft document and answers its id (the one given, or a fresh
/// one).  A document saved before must still be a draft of the same type:
/// its header is rewritten and its lines replaced, and it keeps its number;
/// a new draft is numbered and written.  Each line is written priced in the
/// document's role, and the save is audited.
pub fn save_stock_document_draft<L, D, S, FD, UH, CL, CN, IH, IL, AU>(
    document_id: Option<String>,
    header: HeaderRequest,
    lines: Vec<L>,
    steps: &DraftSteps<D, S, FD, UH, CL, CN, IH, IL, AU>,
) -> (r: AppResult<String>) where
    D: Fn(&str) -> AppResult<Option<String>>,
    S: Fn(&str) -> AppResult<Option<String>>,
    FD: Fn(&str) -> AppResult<Option<DraftRecord>>,
    UH: Fn(&str, &DocumentHeader) -> AppResult<()>,
    CL: Fn(&str) -> AppResult<()>,
    CN: Fn(&str) -> AppResult<u64>,
    IH: Fn(&str, &str, &DocumentHeader) -> AppResult<()>,
    IL: Fn(&str, PricingRole, L) -> AppResult<()>,
    AU: Fn(&str, &str, &str, &str) -> AppResult<()>,

    requires
        forall|s: &str| call_requires(steps.department_name, (s,)),
        forall|s: &str| call_requires(steps.supplier_name, (s,)),
        forall|s: &str| call_requires(steps.find, (s,)),
        forall|s: &str, h: &DocumentHeader| call_requires(steps.update_header, (s, h)),
        forall|s: &str| call_requires(steps.clear_lines, (s,)),
        forall|p: &str| call_requires(steps.count_numbered, (p,)),
        forall|p: &str, n: u64| call_ensures(steps.count_numbered, (p,), Ok::<u64, AppError>(n)) ==> n < u64::MAX,
        forall|s: &str, n: &str, h: &DocumentHeader| call_requires(steps.insert_header, (s, n, h)),
        forall|s: &str, role: PricingRole, l: L| call_requires(steps.insert_line, (s, role, l)),
        forall|a: &str, i: &str, s: &str, o: &str| call_requires(steps.audit, (a, i, s, o)),
    ensures
        r matches Ok(id) ==> draft_saved(*steps, document_id, header, lines@, id@),
        draft_result(*steps, document_id, header, lines@, r),
{
    let handler = copy_text(&header.handler);
    let ghost requested = document_id;
    let id = match document_id {
        Some(i) => i,
        None => new_id(),
    };
    assert(id_for(requested, id@));
    let prepared = prepare_header(header, &steps.department_name, &steps.supplier_name);
    assert(header_result(header, steps.department_name, steps.supplier_name, prepared));
    let h = match prepared {
        Ok(h) => h,
        Err(e) => {
            return Err(e);
        },
    };
    let ghost all = lines@;
    let d = id.as_str();
    let looked = (steps.find)(d);
    assert(call_ensures(steps.find, (d,), looked));
    let found = match looked {
        Ok(f) => f,
        Err(e) => {
            assert(draft_after_prepare(*steps, id@, h, header, all, Err::<String, AppError>(e)));
            return Err(e);
        },
    };
    assert(call_ensures(steps.find, (d,), Ok::<Option<DraftRecord>, AppError>(found)));
    let ghost g = found;
    let no = match found {
        Some(saved) => {
            let ghost gs = saved;
            let editable = check_draft_editable(saved.status.as_str(), saved.document_type.as_str(), h.document_type.as_str());
            if let Err(e) = editable {
                assert(draft_over_saved(*steps, id@, gs, h, header, all, Err::<String, AppError>(e)));
                assert(draft_after_prepare(*steps, id@, h, header, all, Err::<String, AppError>(e)));
                return Err(e);
            }
            let updated = (steps.update_header)(d, &h);
            assert(call_ensures(steps.update_header, (d, &h), updated));
            if let Err(e) = updated {
                assert(draft_over_saved(*steps, id@, gs, h, header, all, Err::<String, AppError>(e)));
                assert(draft_after_prepare(*steps, id@, h, header, all, Err::<String, AppError>(e)));
                return Err(e);
            }
            let cleared = (steps.clear_lines)(d);
            assert(call_ensures(steps.clear_lines, (d,), cleared));
            if let Err(e) = cleared {
                assert(draft_over_saved(*steps, id@, gs, h, header, all, Err::<String, AppError>(e)));
                assert(draft_after_prepare(*steps, id@, h, header, all, Err::<String, AppError>(e)));
                return Err(e);
            }
            assert(header_written(steps.update_header, id@, h));
            assert(done_for(steps.clear_lines, id@));
            saved.document_no
        },
        None => {
            let numbered = assign_document_no(h.document_type.as_str(), h.business_date.as_str(), &steps.count_numbered);
            assert(numbering_result(steps.count_numbered, h.document_type@, h.business_date@, numbered));
            let no = match numbered {
                Ok(n) => n,
                Err(e) => {
                    assert(draft_after_prepare(*steps, id@, h, header, all, Err::<String, AppError>(e)));
                    return Err(e);
                },
            };
            let n = no.as_str();
            let inserted = (steps.insert_header)(d, n, &h);
            assert(call_ensures(steps.insert_header, (d, n, &h), inserted));
            if let Err(e) = inserted {
                assert(draft_after_number(*steps, id@, no@, h, header, all, Err::<String, AppError>(e)));
                assert(draft_after_prepare(*steps, id@, h, header, all, Err::<String, AppError>(e)));
                return Err(e);
            }
            assert(exists|i: &str, n: &str, done: AppResult<()>|
                i@ == id@ && n@ == no@ && #[trigger] call_ensures(steps.insert_header, (i, n, &h), done) && done is Ok);
            no
        },
    };
    let role = pricing_role(h.document_type.as_str(), opt_as_str(&h.outbound_kind));
    let written = write_lines(d, role, lines, &steps.insert_line);
    assert(lines_written_result(steps.insert_line, id@, role, all, written));
    let operator = operator_name(handler);
    let r: AppResult<String> = match written {
        Err(e) => Err(e),
        Ok(_) => {
            let (a, s, o) = ("save_stock_document_draft", no.as_str(), operator.as_str());
            proof {
                reveal_strlit("save_stock_document_draft");
            }
            let answer = (steps.audit)(a, d, s, o);
            assert(call_ensures(steps.audit, (a, d, s, o), answer));
            assert(audit_result(steps.audit, "save_stock_document_draft"@, id@, no@, spec_operator(header.handler), answer));
            match answer {
                Err(e) => Err(e),
                Ok(_) => {
                    assert(audited(steps.audit, "save_stock_document_draft"@, id@, no@, spec_operator(header.handler)));
                    assert(header_prepared(header, h, steps.department_name, steps.supplier_name));
                    assert(call_ensures(steps.find, (d,), Ok::<Option<DraftRecord>, AppError>(g)));
                    assert(draft_saved(*steps, requested, header, all, id@));
                    Ok(id.clone())
                },
            }
        },
    };
    assert(draft_after_header(*steps, id@, no@, h, header, all, r));
    proof {
        match g {
            Some(saved) => {
                assert(draft_over_saved(*steps, id@, saved, h, header, all, r));
            },
            None => {
                assert(draft_after_number(*steps, id@, no@, h, header, all, r));
            },
        }
        assert(draft_after_prepare(*steps, id@, h, header, all, r));
    }
    r
}

/// The department and month whose budgets a confirmed document is held to:
/// an outbound document that is not a sale to guests and names a
/// department (trimmed).  Other documents are held to none.
pub open spec fn spec_budget_scope(h: DocumentHeader) -> Result<Option<(Seq<char>, Seq<char>)>, Seq<char>> {
    if h.document_type@ != "outbound"@ {
        Ok(None)
    } else {
        match spec_outbound_kind(h.document_type@, opt_view(h.outbound_kind)) {
            Err(m) => Err(m),
            Ok(k) => if k == Some("guest_sale"@) {
                Ok(None)
            } else {
                match spec_blank_to_none(opt_view(h.department_id)) {
                    None => Ok(None),
                    Some(d) => Ok(Some((d, spec_take_chars(h.business_date@, 7)))),
                }
            },
        }
    }
}

/// The department and month whose budgets a document is held to, if any.
pub fn budget_scope(h: &DocumentHeader) -> (r: AppResult<Option<(String, String)>>)
    ensures
        match spec_budget_scope(*h) {
            Ok(None) => r matches Ok(None),
            Ok(Some(p)) => r matches Ok(Some(x)) && x.0@ == p.0 && x.1@ == p.1,
            Err(m) => r matches Err(e) && is_validation(e, m),
        },
{
    proof {
        reveal_strlit("guest_sale");
    }
    if !same_text(h.document_type.as_str(), "outbound") {
        return Ok(None);
    }
    let kind = normalized_outbound_kind(h.document_type.as_str(), opt_as_str(&h.outbound_kind))?;
    let guest_sale = match &kind {
        Some(k) => same_text(k.as_str(), "guest_sale"),
        None => false,
    };
    if guest_sale {
        return Ok(None);
    }
    match blank_to_none(copy_text(&h.department_id)) {
        None => Ok(None),
        Some(d) => Ok(Some((d, period_month(h.business_date.as_str())))),
    }
}

/// A line of a document as confirmation reads it back; `figures` are its
/// quantity and prices.
pub struct ConfirmLine<L> {
    pub line_id: String,
    pub item_id: String,
    pub figures: L,
}

/// An item as confirmation finds it; `price` is its default price.
pub struct StockItem<P> {
    pub enabled: bool,
    pub price: P,
}

/// The steps of putting a confirmed document into effect: `lookup_party`
/// finds the name and enabled flag of a department or supplier (table,
/// id); `load_lines` reads the lines of a document; `plan_costs` works out
/// what the lines of an outbound document will cost; `enforce_budget`
/// holds a department's budgets for a month against the lines and planned
/// costs (header, department, month, lines, costs); `find_item` finds an
/// item; `apply_inbound` moves a line's stock in (document id, number,
/// line, header, operator); `apply_outbound` moves it out (document id,
/// line, header, the item's default price, operator); `audit` writes an
/// audit entry.
pub struct EffectSteps<LP, LL, PC, EB, FI, AI, AO, AU> {
    pub lookup_party: LP,
    pub load_lines: LL,
    pub plan_costs: PC,
    pub enforce_budget: EB,
    pub find_item: FI,
    pub apply_inbound: AI,
    pub apply_outbound: AO,
    pub audit: AU,
}

/// The party that a document names passed: none to check, or found and
/// enabled.
pub open spec fn party_passed<LP: Fn(&str, &str) -> AppResult<Option<(String, bool)>>>(
    lookup_party: LP,
    h: DocumentHeader,
) -> bool {
    match spec_party_to_check(h.document_type@, opt_view(h.department_id), opt_view(h.supplier_id)) {
        None => true,
        Some(p) => exists|t: &str, i: &str, found: AppResult<Option<(String, bool)>>|
            t@ == p.0 && i@ == p.1 && #[trigger] call_ensures(lookup_party, (t, i), found) && (found matches Ok(f)
                && spec_party_check(p.0, f) is Ok),
    }
}

/// Line `line` moved its stock: its item was found enabled, and the line
/// went in (inbound documents) or out (every other one, at the item's
/// default price) with `operator`.
pub open spec fn line_applied<L, P, FI, AI, AO>(
    find_item: FI,
    apply_inbound: AI,
    apply_outbound: AO,
    id: Seq<char>,
    no: Seq<char>,
    line: ConfirmLine<L>,
    h: DocumentHeader,
    operator: Seq<char>,
) -> bool where
    FI: Fn(&str) -> AppResult<Option<StockItem<P>>>,
    AI: Fn(&str, &str, &ConfirmLine<L>, &DocumentHeader, &str) -> AppResult<()>,
    AO: Fn(&str, &ConfirmLine<L>, &DocumentHeader, &P, &str) -> AppResult<()>,
 {
    exists|s: &str, item: StockItem<P>|
        {
            &&& s@ == line.item_id@
            &&& #[trigger] call_ensures(find_item, (s,), Ok::<Option<StockItem<P>>, AppError>(Some(item)))
            &&& item.enabled
            &&& h.document_type@ == "inbound"@ ==> exists|i: &str, n: &str, o: &str, done: AppResult<()>|
                i@ == id && n@ == no && o@ == operator && #[trigger] call_ensures(apply_inbound, (i, n, &line, &h, o), done)
                    && done is Ok
            &&& h.document_type@ != "inbound"@ ==> exists|i: &str, o: &str, done: AppResult<()>|
                i@ == id && o@ == operator && #[trigger] call_ensures(apply_outbound, (i, &line, &h, &item.price, o), done)
                    && done is Ok
        }
}

/// `costs` are what `plan_costs` planned for the lines of an outbound
/// document; other documents plan none.
pub open spec fn costs_planned<L, C, PC: Fn(&Vec<ConfirmLine<L>>) -> AppResult<C>>(
    plan_costs: PC,
    lines: Vec<ConfirmLine<L>>,
    h: DocumentHeader,
    costs: Option<C>,
) -> bool {
    if h.document_type@ == "outbound"@ {
        costs matches Some(c) && call_ensures(plan_costs, (&lines,), Ok::<C, AppError>(c))
    } else {
        costs is None
    }
}

/// What putting document `id` (numbered `no`, with header `h`) into effect
/// did: its party passed; its lines were read; an outbound document's
/// costs were planned; the budgets of its scope held; every line moved its
/// stock; and the confirmation was audited.
pub open spec fn effects_applied<L, P, C, LP, LL, PC, EB, FI, AI, AO, AU>(
    steps: EffectSteps<LP, LL, PC, EB, FI, AI, AO, AU>,
    id: Seq<char>,
    no: Seq<char>,
    h: DocumentHeader,
) -> bool where
    LP: Fn(&str, &str) -> AppResult<Option<(String, bool)>>,
    LL: Fn(&str) -> AppResult<Vec<ConfirmLine<L>>>,
    PC: Fn(&Vec<ConfirmLine<L>>) -> AppResult<C>,
    EB: Fn(&DocumentHeader, &str, &str, &Vec<ConfirmLine<L>>, &Option<C>) -> AppResult<()>,
    FI: Fn(&str) -> AppResult<Option<StockItem<P>>>,
    AI: Fn(&str, &str, &ConfirmLine<L>, &DocumentHeader, &str) -> AppResult<()>,
    AO: Fn(&str, &ConfirmLine<L>, &DocumentHeader, &P, &str) -> AppResult<()>,
    AU: Fn(&str, &str, &str, &str) -> AppResult<()>,
 {
    &&& party_passed(steps.lookup_party, h)
    &&& exists|d: &str, lines: Vec<ConfirmLine<L>>, costs: Option<C>|
        #![trigger call_ensures(steps.load_lines, (d,), Ok::<Vec<ConfirmLine<L>>, AppError>(lines)), costs_planned(steps.plan_costs, lines, h, costs)]
        {
            &&& d@ == id
            &&& call_ensures(steps.load_lines, (d,), Ok::<Vec<ConfirmLine<L>>, AppError>(lines))
            &&& costs_planned(steps.plan_costs, lines, h, costs)
            &&& spec_budget_scope(h) matches Ok(scope)
            &&& scope matches Some(p) ==> exists|dept: &str, month: &str, done: AppResult<()>|
                dept@ == p.0 && month@ == p.1 && #[trigger] call_ensures(
                    steps.enforce_budget,
                    (&h, dept, month, &lines, &costs),
                    done,
                ) && done is Ok
            &&& forall|i: int|
                0 <= i < lines@.len() ==> line_applied(
                    steps.find_item,
                    steps.apply_inbound,
                    steps.apply_outbound,
                    id,
                    no,
                    #[trigger] lines@[i],
                    h,
                    spec_operator(h.handler),
                )
        }
    &&& audited(steps.audit, "submit_stock_document"@, id, no, spec_operator(h.handler))
}

/// What an audit entry gave: `audit` was asked to write it, and `r` is its
/// answer.
pub open spec fn audit_result<AU: Fn(&str, &str, &str, &str) -> AppResult<()>>(
    audit: AU,
    action: Seq<char>,
    entity: Seq<char>,
    summary: Seq<char>,
    operator: Seq<char>,
    r: AppResult<()>,
) -> bool {
    exists|a: &str, i: &str, s: &str, o: &str|
        a@ == action && i@ == entity && s@ == summary && o@ == operator && #[trigger] call_ensures(
            audit,
            (a, i, s, o),
            r,
        )
}

/// What checking the party of a document gives: nothing to check, or the
/// lookup's error, or the verdict on the record it found.
pub open spec fn party_result<LP: Fn(&str, &str) -> AppResult<Option<(String, bool)>>>(
    lookup_party: LP,
    h: DocumentHeader,
    res: AppResult<()>,
) -> bool {
    match spec_party_to_check(h.document_type@, opt_view(h.department_id), opt_view(h.supplier_id)) {
        None => res is Ok,
        Some(p) => exists|t: &str, i: &str, found: AppResult<Option<(String, bool)>>|
            t@ == p.0 && i@ == p.1 && #[trigger] call_ensures(lookup_party, (t, i), found) && match found {
                Err(e) => res == Err::<(), AppError>(e),
                Ok(f) => match spec_party_check(p.0, f) {
                    Ok(()) => res is Ok,
                    Err(m) => res matches Err(e) && is_validation(e, m),
                },
            },
    }
}

/// What planning the costs of `lines` gives: for an outbound document what
/// `plan_costs` answered, for others nothing to plan.
pub open spec fn plan_result<L, C, PC: Fn(&Vec<ConfirmLine<L>>) -> AppResult<C>>(
    plan_costs: PC,
    lines: Vec<ConfirmLine<L>>,
    h: DocumentHeader,
    res: AppResult<Option<C>>,
) -> bool {
    if h.document_type@ == "outbound"@ {
        exists|planned: AppResult<C>|
            #[trigger] call_ensures(plan_costs, (&lines,), planned) && match planned {
                Err(e) => res == Err::<Option<C>, AppError>(e),
                Ok(c) => res == Ok::<Option<C>, AppError>(Some(c)),
            }
    } else {
        res == Ok::<Option<C>, AppError>(None)
    }
}

/// What holding the budgets of `scope` gives: nothing to hold without a
/// scope, else what `enforce_budget` answered for its department and month.
pub open spec fn budget_result<L, C, EB: Fn(&DocumentHeader, &str, &str, &Vec<ConfirmLine<L>>, &Option<C>) -> AppResult<()>>(
    enforce_budget: EB,
    h: DocumentHeader,
    scope: Option<(Seq<char>, Seq<char>)>,
    lines: Vec<ConfirmLine<L>>,
    costs: Option<C>,
    res: AppResult<()>,
) -> bool {
    match scope {
        None => res is Ok,
        Some(p) => exists|dept: &str, month: &str|
            dept@ == p.0 && month@ == p.1 && #[trigger] call_ensures(
                enforce_budget,
                (&h, dept, month, &lines, &costs),
                res,
            ),
    }
}

/// What moving the stock of `line` gives: `find_item` is asked for its
/// item, and its error, a missing item or a disabled one is the answer;
/// otherwise what moving it in (inbound documents) or out (others, at the
/// item's default price) answered.
pub open spec fn line_result<L, P, FI, AI, AO>(
    find_item: FI,
    apply_inbound: AI,
    apply_outbound: AO,
    id: Seq<char>,
    no: Seq<char>,
    line: ConfirmLine<L>,
    h: DocumentHeader,
    operator: Seq<char>,
    res: AppResult<()>,
) -> bool where
    FI: Fn(&str) -> AppResult<Option<StockItem<P>>>,
    AI: Fn(&str, &str, &ConfirmLine<L>, &DocumentHeader, &str) -> AppResult<()>,
    AO: Fn(&str, &ConfirmLine<L>, &DocumentHeader, &P, &str) -> AppResult<()>,
 {
    exists|s: &str, found: AppResult<Option<StockItem<P>>>|
        {
            &&& s@ == line.item_id@
            &&& #[trigger] call_ensures(find_item, (s,), found)
            &&& match found {
                Err(e) => res == Err::<(), AppError>(e),
                Ok(None) => res matches Err(e) && is_validation(e, "物品不存在"@),
                Ok(Some(item)) => if !item.enabled {
                    res matches Err(e) && is_validation(e, "物品已停用："@ + line.item_id@)
                } else if h.document_type@ == "inbound"@ {
                    exists|i: &str, n: &str, o: &str|
                        i@ == id && n@ == no && o@ == operator && #[trigger] call_ensures(
                            apply_inbound,
                            (i, n, &line, &h, o),
                            res,
                        )
                } else {
                    exists|i: &str, o: &str|
                        i@ == id && o@ == operator && #[trigger] call_ensures(
                            apply_outbound,
                            (i, &line, &h, &item.price, o),
                            res,
                        )
                },
            }
        }
}

/// What moving the stock of `lines` in order gives: every line moved, or
/// the lines before line `k` moved and line `k` failed with the answer.
pub open spec fn lines_result<L, P, FI, AI, AO>(
    find_item: FI,
    apply_inbound: AI,
    apply_outbound: AO,
    id: Seq<char>,
    no: Seq<char>,
    lines: Seq<ConfirmLine<L>>,
    h: DocumentHeader,
    operator: Seq<char>,
    res: AppResult<()>,
) -> bool where
    FI: Fn(&str) -> AppResult<Option<StockItem<P>>>,
    AI: Fn(&str, &str, &ConfirmLine<L>, &DocumentHeader, &str) -> AppResult<()>,
    AO: Fn(&str, &ConfirmLine<L>, &DocumentHeader, &P, &str) -> AppResult<()>,
 {
    ||| res is Ok && forall|j: int|
        0 <= j < lines.len() ==> line_result(
            find_item,
            apply_inbound,
            apply_outbound,
            id,
            no,
            #[trigger] lines[j],
            h,
            operator,
            Ok(()),
        )
    ||| res is Err && exists|k: int|
        {
            &&& 0 <= k < lines.len()
            &&& forall|j: int|
                0 <= j < k ==> line_result(
                    find_item,
                    apply_inbound,
                    apply_outbound,
                    id,
                    no,
                    #[trigger] lines[j],
                    h,
                    operator,
                    Ok(()),
                )
            &&& line_result(find_item, apply_inbound, apply_outbound, id, no, lines[k], h, operator, res)
        }
}

/// The last stages of putting a document into effect, once the stock of
/// its lines moved with answer `moved`: its error, or the audit entry.
pub open spec fn effects_after_moves<L, P, C, LP, LL, PC, EB, FI, AI, AO, AU>(
    steps: EffectSteps<LP, LL, PC, EB, FI, AI, AO, AU>,
    id: Seq<char>,
    no: Seq<char>,
    h: DocumentHeader,
    moved: AppResult<()>,
    r: AppResult<()>,
) -> bool where
    LP: Fn(&str, &str) -> AppResult<Option<(String, bool)>>,
    LL: Fn(&str) -> AppResult<Vec<ConfirmLine<L>>>,
    PC: Fn(&Vec<ConfirmLine<L>>) -> AppResult<C>,
    EB: Fn(&DocumentHeader, &str, &str, &Vec<ConfirmLine<L>>, &Option<C>) -> AppResult<()>,
    FI: Fn(&str) -> AppResult<Option<StockItem<P>>>,
    AI: Fn(&str, &str, &ConfirmLine<L>, &DocumentHeader, &str) -> AppResult<()>,
    AO: Fn(&str, &ConfirmLine<L>, &DocumentHeader, &P, &str) -> AppResult<()>,
    AU: Fn(&str, &str, &str, &str) -> AppResult<()>,
 {
    match moved {
        Err(e) => r == Err::<(), AppError>(e),
        Ok(_) => audit_result(steps.audit, "submit_stock_document"@, id, no, spec_operator(h.handler), r),
    }
}

/// The stages of putting a document into effect once its budgets held:
/// moving the stock of `lines` in order, then the audit entry.
pub open spec fn effects_after_budgets<L, P, C, LP, LL, PC, EB, FI, AI, AO, AU>(
    steps: EffectSteps<LP, LL, PC, EB, FI, AI, AO, AU>,
    id: Seq<char>,
    no: Seq<char>,
    h: DocumentHeader,
    lines: Seq<ConfirmLine<L>>,
    r: AppResult<()>,
) -> bool where
    LP: Fn(&str, &str) -> AppResult<Option<(String, bool)>>,
    LL: Fn(&str) -> AppResult<Vec<ConfirmLine<L>>>,
    PC: Fn(&Vec<ConfirmLine<L>>) -> AppResult<C>,
    EB: Fn(&DocumentHeader, &str, &str, &Vec<ConfirmLine<L>>, &Option<C>) -> AppResult<()>,
    FI: Fn(&str) -> AppResult<Option<StockItem<P>>>,
    AI: Fn(&str, &str, &ConfirmLine<L>, &DocumentHeader, &str) -> AppResult<()>,
    AO: Fn(&str, &ConfirmLine<L>, &DocumentHeader, &P, &str) -> AppResult<()>,
    AU: Fn(&str, &str, &str, &str) -> AppResult<()>,
 {
    exists|moved: AppResult<()>|
        {
            &&& #[trigger] lines_result(
                steps.find_item,
                steps.apply_inbound,
                steps.apply_outbound,
                id,
                no,
                lines,
                h,
                spec_operator(h.handler),
                moved,
            )
            &&& effects_after_moves(steps, id, no, h, moved, r)
        }
}

/// The stages of putting a document into effect once its costs were
/// planned: the budget scope, whose refusal is the answer, and holding its
/// budgets; then the stages of `effects_after_budgets`.
pub open spec fn effects_after_costs<L, P, C, LP, LL, PC, EB, FI, AI, AO, AU>(
    steps: EffectSteps<LP, LL, PC, EB, FI, AI, AO, AU>,
    id: Seq<char>,
    no: Seq<char>,
    h: DocumentHeader,
    lines: Vec<ConfirmLine<L>>,
    costs: Option<C>,
    r: AppResult<()>,
) -> bool where
    LP: Fn(&str, &str) -> AppResult<Option<(String, bool)>>,
    LL: Fn(&str) -> AppResult<Vec<ConfirmLine<L>>>,
    PC: Fn(&Vec<ConfirmLine<L>>) -> AppResult<C>,
    EB: Fn(&DocumentHeader, &str, &str, &Vec<ConfirmLine<L>>, &Option<C>) -> AppResult<()>,
    FI: Fn(&str) -> AppResult<Option<StockItem<P>>>,
    AI: Fn(&str, &str, &ConfirmLine<L>, &DocumentHeader, &str) -> AppResult<()>,
    AO: Fn(&str, &ConfirmLine<L>, &DocumentHeader, &P, &str) -> AppResult<()>,
    AU: Fn(&str, &str, &str, &str) -> AppResult<()>,
 {
    match spec_budget_scope(h) {
        Err(m) => r matches Err(e) && is_validation(e, m),
        Ok(scope) => exists|held: AppResult<()>|
            {
                &&& #[trigger] budget_result(steps.enforce_budget, h, scope, lines, costs, held)
                &&& match held {
                    Err(e) => r == Err::<(), AppError>(e),
                    Ok(_) => effects_after_budgets(steps, id, no, h, lines@, r),
                }
            },
    }
}

/// The stages of putting a document into effect once its lines were read:
/// planning an outbound document's costs, then `effects_after_costs`.
pub open spec fn effects_after_lines<L, P, C, LP, LL, PC, EB, FI, AI, AO, AU>(
    steps: EffectSteps<LP, LL, PC, EB, FI, AI, AO, AU>,
    id: Seq<char>,
    no: Seq<char>,
    h: DocumentHeader,
    lines: Vec<ConfirmLine<L>>,
    r: AppResult<()>,
) -> bool where
    LP: Fn(&str, &str) -> AppResult<Option<(String, bool)>>,
    LL: Fn(&str) -> AppResult<Vec<ConfirmLine<L>>>,
    PC: Fn(&Vec<ConfirmLine<L>>) -> AppResult<C>,
    EB: Fn(&DocumentHeader, &str, &str, &Vec<ConfirmLine<L>>, &Option<C>) -> AppResult<()>,
    FI: Fn(&str) -> AppResult<Option<StockItem<P>>>,
    AI: Fn(&str, &str, &ConfirmLine<L>, &DocumentHeader, &str) -> AppResult<()>,
    AO: Fn(&str, &ConfirmLine<L>, &DocumentHeader, &P, &str) -> AppResult<()>,
    AU: Fn(&str, &str, &str, &str) -> AppResult<()>,
 {
    exists|planned: AppResult<Option<C>>|
        {
            &&& #[trigger] plan_result(steps.plan_costs, lines, h, planned)
            &&& match planned {
                Err(e) => r == Err::<(), AppError>(e),
                Ok(costs) => effects_after_costs(steps, id, no, h, lines, costs, r),
            }
        }
}

/// What putting document `id` (numbered `no`, with header `h`) into effect
/// gives, stage by stage, the first refusal or error being the answer: the
/// party check, reading the lines, planning an outbound document's costs,
/// the budget scope and holding its budgets, moving every line's stock, and
/// the audit entry of the confirmation.
pub open spec fn effects_result<L, P, C, LP, LL, PC, EB, FI, AI, AO, AU>(
    steps: EffectSteps<LP, LL, PC, EB, FI, AI, AO, AU>,
    id: Seq<char>,
    no: Seq<char>,
    h: DocumentHeader,
    r: AppResult<()>,
) -> bool where
    LP: Fn(&str, &str) -> AppResult<Option<(String, bool)>>,
    LL: Fn(&str) -> AppResult<Vec<ConfirmLine<L>>>,
    PC: Fn(&Vec<ConfirmLine<L>>) -> AppResult<C>,
    EB: Fn(&DocumentHeader, &str, &str, &Vec<ConfirmLine<L>>, &Option<C>) -> AppResult<()>,
    FI: Fn(&str) -> AppResult<Option<StockItem<P>>>,
    AI: Fn(&str, &str, &ConfirmLine<L>, &DocumentHeader, &str) -> AppResult<()>,
    AO: Fn(&str, &ConfirmLine<L>, &DocumentHeader, &P, &str) -> AppResult<()>,
    AU: Fn(&str, &str, &str, &str) -> AppResult<()>,
 {
    exists|party: AppResult<()>|
        {
            &&& #[trigger] party_result(steps.lookup_party, h, party)
            &&& match party {
                Err(e) => r == Err::<(), AppError>(e),
                Ok(_) => exists|d: &str, loaded: AppResult<Vec<ConfirmLine<L>>>|
                    {
                        &&& d@ == id
                        &&& #[trigger] call_ensures(steps.load_lines, (d,), loaded)
                        &&& match loaded {
                            Err(e) => r == Err::<(), AppError>(e),
                            Ok(lines) => effects_after_lines(steps, id, no, h, lines, r),
                        }
                    },
            }
        }
}

proof fn lemma_line_failed<L, P, FI, AI, AO>(
    find_item: FI,
    apply_inbound: AI,
    apply_outbound: AO,
    id: Seq<char>,
    no: Seq<char>,
    lines: Seq<ConfirmLine<L>>,
    h: DocumentHeader,
    operator: Seq<char>,
    k: int,
    res: AppResult<()>,
) where
    FI: Fn(&str) -> AppResult<Option<StockItem<P>>>,
    AI: Fn(&str, &str, &ConfirmLine<L>, &DocumentHeader, &str) -> AppResult<()>,
    AO: Fn(&str, &ConfirmLine<L>, &DocumentHeader, &P, &str) -> AppResult<()>,

    requires
        0 <= k < lines.len(),
        forall|j: int|
            0 <= j < k ==> line_result(
                find_item,
                apply_inbound,
                apply_outbound,
                id,
                no,
                #[trigger] lines[j],
                h,
                operator,
                Ok(()),
            ),
        line_result(find_item, apply_inbound, apply_outbound, id, no, lines[k], h, operator, res),
        res is Err,
    ensures
        lines_result(find_item, apply_inbound, apply_outbound, id, no, lines, h, operator, res),
{
}

proof fn lemma_line_applied<L, P, FI, AI, AO>(
    find_item: FI,
    apply_inbound: AI,
    apply_outbound: AO,
    id: Seq<char>,
    no: Seq<char>,
    line: ConfirmLine<L>,
    h: DocumentHeader,
    operator: Seq<char>,
) where
    FI: Fn(&str) -> AppResult<Option<StockItem<P>>>,
    AI: Fn(&str, &str, &ConfirmLine<L>, &DocumentHeader, &str) -> AppResult<()>,
    AO: Fn(&str, &ConfirmLine<L>, &DocumentHeader, &P, &str) -> AppResult<()>,

    requires
        line_result(find_item, apply_inbound, apply_outbound, id, no, line, h, operator, Ok(())),
    ensures
        line_applied(find_item, apply_inbound, apply_outbound, id, no, line, h, operator),
{
    let (s, found) = choose|s: &str, found: AppResult<Option<StockItem<P>>>|
        {
            &&& s@ == line.item_id@
            &&& #[trigger] call_ensures(find_item, (s,), found)
            &&& match found {
                Err(e) => Ok::<(), AppError>(()) == Err::<(), AppError>(e),
                Ok(None) => false,
                Ok(Some(item)) => if !item.enabled {
                    false
                } else if h.document_type@ == "inbound"@ {
                    exists|i: &str, n: &str, o: &str|
                        i@ == id && n@ == no && o@ == operator && #[trigger] call_ensures(
                            apply_inbound,
                            (i, n, &line, &h, o),
                            Ok::<(), AppError>(()),
                        )
                } else {
                    exists|i: &str, o: &str|
                        i@ == id && o@ == operator && #[trigger] call_ensures(
                            apply_outbound,
                            (i, &line, &h, &item.price, o),
                            Ok::<(), AppError>(()),
                        )
                },
            }
        };
    let item = found->Ok_0->Some_0;
    assert(call_ensures(find_item, (s,), Ok::<Option<StockItem<P>>, AppError>(Some(item))));
}

proof fn lemma_effects_result<L, P, C, LP, LL, PC, EB, FI, AI, AO, AU>(
    steps: EffectSteps<LP, LL, PC, EB, FI, AI, AO, AU>,
    id: Seq<char>,
    no: Seq<char>,
    h: DocumentHeader,
    party: AppResult<()>,
    d: &str,
    lines: Vec<ConfirmLine<L>>,
    planned: AppResult<Option<C>>,
    costs: Option<C>,
    held: AppResult<()>,
    moved: AppResult<()>,
    r: AppResult<()>,
) where
    LP: Fn(&str, &str) -> AppResult<Option<(String, bool)>>,
    LL: Fn(&str) -> AppResult<Vec<ConfirmLine<L>>>,
    PC: Fn(&Vec<ConfirmLine<L>>) -> AppResult<C>,
    EB: Fn(&DocumentHeader, &str, &str, &Vec<ConfirmLine<L>>, &Option<C>) -> AppResult<()>,
    FI: Fn(&str) -> AppResult<Option<StockItem<P>>>,
    AI: Fn(&str, &str, &ConfirmLine<L>, &DocumentHeader, &str) -> AppResult<()>,
    AO: Fn(&str, &ConfirmLine<L>, &DocumentHeader, &P, &str) -> AppResult<()>,
    AU: Fn(&str, &str, &str, &str) -> AppResult<()>,

    requires
        party_result(steps.lookup_party, h, party),
        party is Ok,
        d@ == id,
        call_ensures(steps.load_lines, (d,), Ok::<Vec<ConfirmLine<L>>, AppError>(lines)),
        plan_result(steps.plan_costs, lines, h, planned),
        planned == Ok::<Option<C>, AppError>(costs),
        spec_budget_scope(h) matches Ok(sc) && budget_result(steps.enforce_budget, h, sc, lines, costs, held),
        held is Ok,
        lines_result(
            steps.find_item,
            steps.apply_inbound,
            steps.apply_outbound,
            id,
            no,
            lines@,
            h,
            spec_operator(h.handler),
            moved,
        ),
        moved matches Err(e) ==> r == Err::<(), AppError>(e),
        moved is Ok ==> audit_result(steps.audit, "submit_stock_document"@, id, no, spec_operator(h.handler), r),
    ensures
        effects_result(steps, id, no, h, r),
{
    let sc = spec_budget_scope(h)->Ok_0;
    assert(effects_after_moves(steps, id, no, h, moved, r));
    assert(effects_after_budgets(steps, id, no, h, lines@, r));
    assert(budget_result(steps.enforce_budget, h, sc, lines, costs, held));
    assert(effects_after_costs(steps, id, no, h, lines, costs, r));
    assert(effects_after_lines(steps, id, no, h, lines, r));
    assert(party_result(steps.lookup_party, h, party));
}

/// Puts confirmed document `document_id` (numbered `document_no`, with
/// header `h`) into effect: the party it names must be enabled; an
/// outbound document's costs are planned and the budgets of its department
/// and month enforced; then every line, whose item must exist and be
/// enabled, moves its stock in order; last the confirmation is audited.
pub fn apply_confirmed_document_effects<L, P, C, LP, LL, PC, EB, FI, AI, AO, AU>(
    document_id: &str,
    document_no: &str,
    h: &DocumentHeader,
    steps: &EffectSteps<LP, LL, PC, EB, FI, AI, AO, AU>,
) -> (r: AppResult<()>) where
    LP: Fn(&str, &str) -> AppResult<Option<(String, bool)>>,
    LL: Fn(&str) -> AppResult<Vec<ConfirmLine<L>>>,
    PC: Fn(&Vec<ConfirmLine<L>>) -> AppResult<C>,
    EB: Fn(&DocumentHeader, &str, &str, &Vec<ConfirmLine<L>>, &Option<C>) -> AppResult<()>,
    FI: Fn(&str) -> AppResult<Option<StockItem<P>>>,
    AI: Fn(&str, &str, &ConfirmLine<L>, &DocumentHeader, &str) -> AppResult<()>,
    AO: Fn(&str, &ConfirmLine<L>, &DocumentHeader, &P, &str) -> AppResult<()>,
    AU: Fn(&str, &str, &str, &str) -> AppResult<()>,

    requires
        forall|t: &str, i: &str| call_requires(steps.lookup_party, (t, i)),
        forall|d: &str| call_requires(steps.load_lines, (d,)),
        forall|ls: &Vec<ConfirmLine<L>>| call_requires(steps.plan_costs, (ls,)),
        forall|h: &DocumentHeader, d: &str, m: &str, ls: &Vec<ConfirmLine<L>>, c: &Option<C>|
            call_requires(steps.enforce_budget, (h, d, m, ls, c)),
        forall|s: &str| call_requires(steps.find_item, (s,)),
        forall|i: &str, n: &str, l: &ConfirmLine<L>, h: &DocumentHeader, o: &str|
            call_requires(steps.apply_inbound, (i, n, l, h, o)),
        forall|i: &str, l: &ConfirmLine<L>, h: &DocumentHeader, p: &P, o: &str|
            call_requires(steps.apply_outbound, (i, l, h, p, o)),
        forall|a: &str, i: &str, s: &str, o: &str| call_requires(steps.audit, (a, i, s, o)),
    ensures
        r is Ok ==> effects_applied(*steps, document_id@, document_no@, *h),
        effects_result(*steps, document_id@, document_no@, *h, r),
{
    let party = validate_enabled_parties_for_document(
        h.document_type.as_str(),
        opt_as_str(&h.department_id),
        opt_as_str(&h.supplier_id),
        &steps.lookup_party,
    );
    assert(party_result(steps.lookup_party, *h, party));
    let ghost gparty = party;
    if let Err(e) = party {
        return Err(e);
    }
    assert(party_passed(steps.lookup_party, *h));
    let loaded = (steps.load_lines)(document_id);
    assert(call_ensures(steps.load_lines, (document_id,), loaded));
    let lines = match loaded {
        Ok(ls) => ls,
        Err(e) => {
            return Err(e);
        },
    };
    assert(call_ensures(steps.load_lines, (document_id,), Ok::<Vec<ConfirmLine<L>>, AppError>(lines)));
    let outbound = same_text(h.document_type.as_str(), "outbound");
    let planned: AppResult<Option<C>> = if outbound {
        let answer = (steps.plan_costs)(&lines);
        assert(call_ensures(steps.plan_costs, (&lines,), answer));
        match answer {
            Ok(c) => {
                assert(call_ensures(steps.plan_costs, (&lines,), Ok::<C, AppError>(c)));
                Ok(Some(c))
            },
            Err(e) => Err(e),
        }
    } else {
        Ok(None)
    };
    assert(plan_result(steps.plan_costs, lines, *h, planned));
    let ghost gplanned = planned;
    let costs = match planned {
        Ok(c) => c,
        Err(e) => {
            assert(effects_after_lines(*steps, document_id@, document_no@, *h, lines, Err(e)));
            return Err(e);
        },
    };
    assert(costs_planned(steps.plan_costs, lines, *h, costs));
    let scope = match budget_scope(h) {
        Ok(sc) => sc,
        Err(e) => {
            assert(effects_after_costs(*steps, document_id@, document_no@, *h, lines, costs, Err(e)));
            assert(effects_after_lines(*steps, document_id@, document_no@, *h, lines, Err(e)));
            return Err(e);
        },
    };
    let held: AppResult<()> = match &scope {
        Some((dept, month)) => {
            let (d, m) = (dept.as_str(), month.as_str());
            let answer = (steps.enforce_budget)(h, d, m, &lines, &costs);
            assert(call_ensures(steps.enforce_budget, (h, d, m, &lines, &costs), answer));
            answer
        },
        None => Ok(()),
    };
    assert(spec_budget_scope(*h) matches Ok(sc) && budget_result(steps.enforce_budget, *h, sc, lines, costs, held));
    let ghost gheld = held;
    if let Err(e) = held {
        assert(effects_after_costs(*steps, document_id@, document_no@, *h, lines, costs, Err(e)));
        assert(effects_after_lines(*steps, document_id@, document_no@, *h, lines, Err(e)));
        return Err(e);
    }
    let operator = operator_name(copy_text(&h.handler));
    let ghost op = spec_operator(h.handler);
    let inbound = same_text(h.document_type.as_str(), "inbound");
    let mut moved: AppResult<()> = Ok(());
    let mut i: usize = 0;
    while i < lines.len()
        invariant_except_break
            moved is Ok,
            forall|j: int|
                0 <= j < i ==> line_result(
                    steps.find_item,
                    steps.apply_inbound,
                    steps.apply_outbound,
                    document_id@,
                    document_no@,
                    #[trigger] lines@[j],
                    *h,
                    op,
                    Ok(()),
                ),
        invariant
            i <= lines.len(),
            operator@ == op,
            inbound == (h.document_type@ == "inbound"@),
            forall|s: &str| call_requires(steps.find_item, (s,)),
            forall|i: &str, n: &str, l: &ConfirmLine<L>, h: &DocumentHeader, o: &str|
            call_requires(steps.apply_inbound, (i, n, l, h, o)),
            forall|i: &str, l: &ConfirmLine<L>, h: &DocumentHeader, p: &P, o: &str|
            call_requires(steps.apply_outbound, (i, l, h, p, o)),
        ensures
            lines_result(steps.find_item, steps.apply_inbound, steps.apply_outbound, document_id@, document_no@, lines@, *h, op, moved),
        decreases lines.len() - i,
    {
        let line = &lines[i];
        let s = line.item_id.as_str();
        let found = (steps.find_item)(s);
        assert(call_ensures(steps.find_item, (s,), found));
        let ghost gfound = found;
        let checked: AppResult<P> = match found {
            Err(e) => Err(e),
            Ok(None) => Err(validation("物品不存在")),
            Ok(Some(item)) => if !item.enabled {
                Err(AppError::Validation(String::from_str("物品已停用：").concat(s)))
            } else {
                Ok(item.price)
            },
        };
        let step = match checked {
            Err(e) => Err(e),
            Ok(price) => {
                let o = operator.as_str();
                if inbound {
                    let done = (steps.apply_inbound)(document_id, document_no, line, h, o);
                    assert(call_ensures(steps.apply_inbound, (document_id, document_no, line, h, o), done));
                    done
                } else {
                    let done = (steps.apply_outbound)(document_id, line, h, &price, o);
                    assert(call_ensures(steps.apply_outbound, (document_id, line, h, &price, o), done));
                    done
                }
            },
        };
        assert(call_ensures(steps.find_item, (s,), gfound));
        assert(line_result(steps.find_item, steps.apply_inbound, steps.apply_outbound, document_id@, document_no@, lines@[i as int], *h, op, step));
        let ghost gstep = step;
        if let Err(e) = step {
            proof {
                lemma_line_failed(steps.find_item, steps.apply_inbound, steps.apply_outbound, document_id@, document_no@, lines@, *h, op, i as int, gstep);
            }
            moved = Err(e);
            break;
        }
        assert(gstep is Ok);
        let ghost u: () = gstep->Ok_0;
        assert(u == ());
        assert(gstep == Ok::<(), AppError>(()));
        i = i + 1;
    }
    proof {
        if moved is Err {
            lemma_effects_result(*steps, document_id@, document_no@, *h, gparty, document_id, lines, gplanned, costs, gheld, moved, moved);
        }
    }
    if let Err(e) = moved {
        return Err(e);
    }
    assert forall|j: int| 0 <= j < lines@.len() implies line_applied(
        steps.find_item,
        steps.apply_inbound,
        steps.apply_outbound,
        document_id@,
        document_no@,
        #[trigger] lines@[j],
        *h,
        op,
    ) by {
        lemma_line_applied(steps.find_item, steps.apply_inbound, steps.apply_outbound, document_id@, document_no@, lines@[j], *h, op);
    }
    let (a, o) = ("submit_stock_document", operator.as_str());
    proof {
        reveal_strlit("submit_stock_document");
    }
    let written = (steps.audit)(a, document_id, document_no, o);
    assert(call_ensures(steps.audit, (a, document_id, document_no, o), written));
    assert(audit_result(steps.audit, "submit_stock_document"@, document_id@, document_no@, op, written));
    proof {
        lemma_effects_result(*steps, document_id@, document_no@, *h, gparty, document_id, lines, gplanned, costs, gheld, Ok(()), written);
    }
    if let Err(e) = written {
        return Err(e);
    }
    proof {
        let u: () = written->Ok_0;
        assert(u == ());
        assert(written == Ok::<(), AppError>(()));
    }
    assert(effects_applied(*steps, document_id@, document_no@, *h));
    Ok(())
}

/// The steps of writing a confirmed document: the name lookups of
/// `prepare_header`; `insert_header` writes a confirmed document (id,
/// number, header); `insert_line` writes a line of a document, priced in
/// the given role.
pub struct WriteSteps<D, S, IH, IL> {
    pub department_name: D,
    pub supplier_name: S,
    pub insert_header: IH,
    pub insert_line: IL,
}

/// What writing confirmed document `id` numbered `no` did: the header was
/// prepared from the request and written, every line was written priced in
/// the document's role, and the document was put into effect.
pub open spec fn confirmed_written<RL, L, P, C, D, S, IH, IL, LP, LL, PC, EB, FI, AI, AO, AU>(
    write: WriteSteps<D, S, IH, IL>,
    effects: EffectSteps<LP, LL, PC, EB, FI, AI, AO, AU>,
    id: Seq<char>,
    no: Seq<char>,
    header: HeaderRequest,
    lines: Seq<RL>,
) -> bool where
    D: Fn(&str) -> AppResult<Option<String>>,
    S: Fn(&str) -> AppResult<Option<String>>,
    IH: Fn(&str, &str, &DocumentHeader) -> AppResult<()>,
    IL: Fn(&str, PricingRole, RL) -> AppResult<()>,
    LP: Fn(&str, &str) -> AppResult<Option<(String, bool)>>,
    LL: Fn(&str) -> AppResult<Vec<ConfirmLine<L>>>,
    PC: Fn(&Vec<ConfirmLine<L>>) -> AppResult<C>,
    EB: Fn(&DocumentHeader, &str, &str, &Vec<ConfirmLine<L>>, &Option<C>) -> AppResult<()>,
    FI: Fn(&str) -> AppResult<Option<StockItem<P>>>,
    AI: Fn(&str, &str, &ConfirmLine<L>, &DocumentHeader, &str) -> AppResult<()>,
    AO: Fn(&str, &ConfirmLine<L>, &DocumentHeader, &P, &str) -> AppResult<()>,
    AU: Fn(&str, &str, &str, &str) -> AppResult<()>,
 {
    exists|h: DocumentHeader|
        {
            &&& #[trigger] header_prepared(header, h, write.department_name, write.supplier_name)
            &&& exists|i: &str, n: &str, done: AppResult<()>|
                i@ == id && n@ == no && #[trigger] call_ensures(write.insert_header, (i, n, &h), done) && done is Ok
            &&& forall|k: int|
                0 <= k < lines.len() ==> line_written(
                    write.insert_line,
                    id,
                    spec_pricing_role(h.document_type@, opt_view(h.outbound_kind)),
                    #[trigger] lines[k],
                )
            &&& effects_applied(effects, id, no, h)
        }
}

/// What writing `lines` of document `id` in order gives: every line was
/// written, or the lines before line `k` were and line `k` failed with the
/// answer.
pub open spec fn lines_written_result<RL, IL: Fn(&str, PricingRole, RL) -> AppResult<()>>(
    insert_line: IL,
    id: Seq<char>,
    role: PricingRole,
    lines: Seq<RL>,
    res: AppResult<()>,
) -> bool {
    ||| res is Ok && forall|k: int| 0 <= k < lines.len() ==> line_written(insert_line, id, role, #[trigger] lines[k])
    ||| res is Err && exists|k: int|
        #![trigger lines[k]]
        {
            &&& 0 <= k < lines.len()
            &&& forall|j: int| 0 <= j < k ==> line_written(insert_line, id, role, #[trigger] lines[j])
            &&& exists|i: &str| i@ == id && #[trigger] call_ensures(insert_line, (i, role, lines[k]), res)
        }
}

fn write_lines<RL, IL: Fn(&str, PricingRole, RL) -> AppResult<()>>(
    document_id: &str,
    role: PricingRole,
    lines: Vec<RL>,
    insert_line: &IL,
) -> (r: AppResult<()>)
    requires
        forall|s: &str, role: PricingRole, l: RL| call_requires(*insert_line, (s, role, l)),
    ensures
        r is Ok ==> forall|k: int| 0 <= k < lines@.len() ==> line_written(*insert_line, document_id@, role, #[trigger] lines@[k]),
        lines_written_result(*insert_line, document_id@, role, lines@, r),
{
    let ghost all = lines@;
    let mut rest = lines;
    let ghost mut k: int = 0;
    while rest.len() > 0
        invariant
            0 <= k <= all.len(),
            all == lines@,
            rest@ == all.subrange(k, all.len() as int),
            forall|s: &str, role: PricingRole, l: RL| call_requires(*insert_line, (s, role, l)),
            forall|j: int| 0 <= j < k ==> line_written(*insert_line, document_id@, role, #[trigger] all[j]),
        decreases rest.len(),
    {
        let line = rest.remove(0);
        assert(line == all[k]);
        let written = insert_line(document_id, role, line);
        assert(call_ensures(*insert_line, (document_id, role, all[k]), written));
        if let Err(e) = written {
            assert(lines_written_result(*insert_line, document_id@, role, all, Err::<(), AppError>(e)));
            return Err(e);
        }
        assert(line_written(*insert_line, document_id@, role, all[k]));
        proof {
            k = k + 1;
        }
    }
    assert(k == all.len());
    Ok(())
}

/// The stages of writing confirmed document `id` once its header `h` is
/// written: its lines in order, then putting it into effect.
pub open spec fn confirmed_after_header<RL, L, P, C, D, S, IH, IL, LP, LL, PC, EB, FI, AI, AO, AU>(
    write: WriteSteps<D, S, IH, IL>,
    effects: EffectSteps<LP, LL, PC, EB, FI, AI, AO, AU>,
    id: Seq<char>,
    no: Seq<char>,
    h: DocumentHeader,
    lines: Seq<RL>,
    r: AppResult<()>,
) -> bool where
    D: Fn(&str) -> AppResult<Option<String>>,
    S: Fn(&str) -> AppResult<Option<String>>,
    IH: Fn(&str, &str, &DocumentHeader) -> AppResult<()>,
    IL: Fn(&str, PricingRole, RL) -> AppResult<()>,
    LP: Fn(&str, &str) -> AppResult<Option<(String, bool)>>,
    LL: Fn(&str) -> AppResult<Vec<ConfirmLine<L>>>,
    PC: Fn(&Vec<ConfirmLine<L>>) -> AppResult<C>,
    EB: Fn(&DocumentHeader, &str, &str, &Vec<ConfirmLine<L>>, &Option<C>) -> AppResult<()>,
    FI: Fn(&str) -> AppResult<Option<StockItem<P>>>,
    AI: Fn(&str, &str, &ConfirmLine<L>, &DocumentHeader, &str) -> AppResult<()>,
    AO: Fn(&str, &ConfirmLine<L>, &DocumentHeader, &P, &str) -> AppResult<()>,
    AU: Fn(&str, &str, &str, &str) -> AppResult<()>,
 {
    exists|written: AppResult<()>|
        {
            &&& #[trigger] lines_written_result(
                write.insert_line,
                id,
                spec_pricing_role(h.document_type@, opt_view(h.outbound_kind)),
                lines,
                written,
            )
            &&& match written {
                Err(e) => r == Err::<(), AppError>(e),
                Ok(_) => effects_result(effects, id, no, h, r),
            }
        }
}

/// The stages of writing confirmed document `id` once its header `h` is
/// prepared: writing the header, then `confirmed_after_header`.
pub open spec fn confirmed_after_prepare<RL, L, P, C, D, S, IH, IL, LP, LL, PC, EB, FI, AI, AO, AU>(
    write: WriteSteps<D, S, IH, IL>,
    effects: EffectSteps<LP, LL, PC, EB, FI, AI, AO, AU>,
    id: Seq<char>,
    no: Seq<char>,
    h: DocumentHeader,
    lines: Seq<RL>,
    r: AppResult<()>,
) -> bool where
    D: Fn(&str) -> AppResult<Option<String>>,
    S: Fn(&str) -> AppResult<Option<String>>,
    IH: Fn(&str, &str, &DocumentHeader) -> AppResult<()>,
    IL: Fn(&str, PricingRole, RL) -> AppResult<()>,
    LP: Fn(&str, &str) -> AppResult<Option<(String, bool)>>,
    LL: Fn(&str) -> AppResult<Vec<ConfirmLine<L>>>,
    PC: Fn(&Vec<ConfirmLine<L>>) -> AppResult<C>,
    EB: Fn(&DocumentHeader, &str, &str, &Vec<ConfirmLine<L>>, &Option<C>) -> AppResult<()>,
    FI: Fn(&str) -> AppResult<Option<StockItem<P>>>,
    AI: Fn(&str, &str, &ConfirmLine<L>, &DocumentHeader, &str) -> AppResult<()>,
    AO: Fn(&str, &ConfirmLine<L>, &DocumentHeader, &P, &str) -> AppResult<()>,
    AU: Fn(&str, &str, &str, &str) -> AppResult<()>,
 {
    exists|i: &str, n: &str, inserted: AppResult<()>|
        {
            &&& i@ == id
            &&& n@ == no
            &&& #[trigger] call_ensures(write.insert_header, (i, n, &h), inserted)
            &&& match inserted {
                Err(e) => r == Err::<(), AppError>(e),
                Ok(_) => confirmed_after_header(write, effects, id, no, h, lines, r),
            }
        }
}

/// What writing confirmed document `id` numbered `no` and putting it into
/// effect gives, the first refusal or error being the answer: preparing
/// the header, writing it, writing the lines, then the effects.
pub open spec fn insert_result<RL, L, P, C, D, S, IH, IL, LP, LL, PC, EB, FI, AI, AO, AU>(
    write: WriteSteps<D, S, IH, IL>,
    effects: EffectSteps<LP, LL, PC, EB, FI, AI, AO, AU>,
    id: Seq<char>,
    no: Seq<char>,
    header: HeaderRequest,
    lines: Seq<RL>,
    r: AppResult<()>,
) -> bool where
    D: Fn(&str) -> AppResult<Option<String>>,
    S: Fn(&str) -> AppResult<Option<String>>,
    IH: Fn(&str, &str, &DocumentHeader) -> AppResult<()>,
    IL: Fn(&str, PricingRole, RL) -> AppResult<()>,
    LP: Fn(&str, &str) -> AppResult<Option<(String, bool)>>,
    LL: Fn(&str) -> AppResult<Vec<ConfirmLine<L>>>,
    PC: Fn(&Vec<ConfirmLine<L>>) -> AppResult<C>,
    EB: Fn(&DocumentHeader, &str, &str, &Vec<ConfirmLine<L>>, &Option<C>) -> AppResult<()>,
    FI: Fn(&str) -> AppResult<Option<StockItem<P>>>,
    AI: Fn(&str, &str, &ConfirmLine<L>, &DocumentHeader, &str) -> AppResult<()>,
    AO: Fn(&str, &ConfirmLine<L>, &DocumentHeader, &P, &str) -> AppResult<()>,
    AU: Fn(&str, &str, &str, &str) -> AppResult<()>,
 {
    exists|prepared: AppResult<DocumentHeader>|
        {
            &&& #[trigger] header_result(header, write.department_name, write.supplier_name, prepared)
            &&& match prepared {
                Err(e) => r == Err::<(), AppError>(e),
                Ok(h) => confirmed_after_prepare(write, effects, id, no, h, lines, r),
            }
        }
}

/// What submitting a document once it was numbered `no` gives: writing it
/// under a fresh id and putting it into effect; its refusal or error, or
/// else the id.
pub open spec fn submitted_after_number<RL, L, P, C, D, S, IH, IL, LP, LL, PC, EB, FI, AI, AO, AU>(
    write: WriteSteps<D, S, IH, IL>,
    effects: EffectSteps<LP, LL, PC, EB, FI, AI, AO, AU>,
    no: Seq<char>,
    header: HeaderRequest,
    lines: Seq<RL>,
    r: AppResult<String>,
) -> bool where
    D: Fn(&str) -> AppResult<Option<String>>,
    S: Fn(&str) -> AppResult<Option<String>>,
    IH: Fn(&str, &str, &DocumentHeader) -> AppResult<()>,
    IL: Fn(&str, PricingRole, RL) -> AppResult<()>,
    LP: Fn(&str, &str) -> AppResult<Option<(String, bool)>>,
    LL: Fn(&str) -> AppResult<Vec<ConfirmLine<L>>>,
    PC: Fn(&Vec<ConfirmLine<L>>) -> AppResult<C>,
    EB: Fn(&DocumentHeader, &str, &str, &Vec<ConfirmLine<L>>, &Option<C>) -> AppResult<()>,
    FI: Fn(&str) -> AppResult<Option<StockItem<P>>>,
    AI: Fn(&str, &str, &ConfirmLine<L>, &DocumentHeader, &str) -> AppResult<()>,
    AO: Fn(&str, &ConfirmLine<L>, &DocumentHeader, &P, &str) -> AppResult<()>,
    AU: Fn(&str, &str, &str, &str) -> AppResult<()>,
 {
    exists|id: Seq<char>, inserted: AppResult<()>|
        {
            &&& id.len() == 36
            &&& #[trigger] insert_result(write, effects, id, no, header, lines, inserted)
            &&& match inserted {
                Err(e) => r == Err::<String, AppError>(e),
                Ok(_) => r matches Ok(x) && x@ == id,
            }
        }
}

/// Writes confirmed document `document_id` numbered `document_no` and puts
/// it into effect: the header is prepared and written, then the lines,
/// then the effects.
pub fn insert_confirmed_document<RL, L, P, C, D, S, IH, IL, LP, LL, PC, EB, FI, AI, AO, AU>(
    document_id: &str,
    document_no: &str,
    header: HeaderRequest,
    lines: Vec<RL>,
    write: &WriteSteps<D, S, IH, IL>,
    effects: &EffectSteps<LP, LL, PC, EB, FI, AI, AO, AU>,
) -> (r: AppResult<()>) where
    D: Fn(&str) -> AppResult<Option<String>>,
    S: Fn(&str) -> AppResult<Option<String>>,
    IH: Fn(&str, &str, &DocumentHeader) -> AppResult<()>,
    IL: Fn(&str, PricingRole, RL) -> AppResult<()>,
    LP: Fn(&str, &str) -> AppResult<Option<(String, bool)>>,
    LL: Fn(&str) -> AppResult<Vec<ConfirmLine<L>>>,
    PC: Fn(&Vec<ConfirmLine<L>>) -> AppResult<C>,
    EB: Fn(&DocumentHeader, &str, &str, &Vec<ConfirmLine<L>>, &Option<C>) -> AppResult<()>,
    FI: Fn(&str) -> AppResult<Option<StockItem<P>>>,
    AI: Fn(&str, &str, &ConfirmLine<L>, &DocumentHeader, &str) -> AppResult<()>,
    AO: Fn(&str, &ConfirmLine<L>, &DocumentHeader, &P, &str) -> AppResult<()>,
    AU: Fn(&str, &str, &str, &str) -> AppResult<()>,

    requires
        forall|s: &str| call_requires(write.department_name, (s,)),
        forall|s: &str| call_requires(write.supplier_name, (s,)),
        forall|s: &str, n: &str, h: &DocumentHeader| call_requires(write.insert_header, (s, n, h)),
        forall|s: &str, role: PricingRole, l: RL| call_requires(write.insert_line, (s, role, l)),
        forall|t: &str, i: &str| call_requires(effects.lookup_party, (t, i)),
        forall|d: &str| call_requires(effects.load_lines, (d,)),
        forall|ls: &Vec<ConfirmLine<L>>| call_requires(effects.plan_costs, (ls,)),
        forall|h: &DocumentHeader, d: &str, m: &str, ls: &Vec<ConfirmLine<L>>, c: &Option<C>|
            call_requires(effects.enforce_budget, (h, d, m, ls, c)),
        forall|s: &str| call_requires(effects.find_item, (s,)),
        forall|i: &str, n: &str, l: &ConfirmLine<L>, h: &DocumentHeader, o: &str|
            call_requires(effects.apply_inbound, (i, n, l, h, o)),
        forall|i: &str, l: &ConfirmLine<L>, h: &DocumentHeader, p: &P, o: &str|
            call_requires(effects.apply_outbound, (i, l, h, p, o)),
        forall|a: &str, i: &str, s: &str, o: &str| call_requires(effects.audit, (a, i, s, o)),
    ensures
        r is Ok ==> confirmed_written(*write, *effects, document_id@, document_no@, header, lines@),
        insert_result(*write, *effects, document_id@, document_no@, header, lines@, r),
{
    let prepared = prepare_header(header, &write.department_name, &write.supplier_name);
    assert(header_result(header, write.department_name, write.supplier_name, prepared));
    let h = match prepared {
        Ok(h) => h,
        Err(e) => {
            return Err(e);
        },
    };
    let inserted = (write.insert_header)(document_id, document_no, &h);
    assert(call_ensures(write.insert_header, (document_id, document_no, &h), inserted));
    if let Err(e) = inserted {
        assert(confirmed_after_prepare(*write, *effects, document_id@, document_no@, h, lines@, Err::<(), AppError>(e)));
        return Err(e);
    }
    let role = pricing_role(h.document_type.as_str(), opt_as_str(&h.outbound_kind));
    let ghost all = lines@;
    let written = write_lines(document_id, role, lines, &write.insert_line);
    assert(lines_written_result(write.insert_line, document_id@, role, all, written));
    if let Err(e) = written {
        assert(confirmed_after_header(*write, *effects, document_id@, document_no@, h, all, Err::<(), AppError>(e)));
        assert(confirmed_after_prepare(*write, *effects, document_id@, document_no@, h, all, Err::<(), AppError>(e)));
        return Err(e);
    }
    let applied = apply_confirmed_document_effects(document_id, document_no, &h, effects);
    assert(confirmed_after_header(*write, *effects, document_id@, document_no@, h, all, applied));
    assert(confirmed_after_prepare(*write, *effects, document_id@, document_no@, h, all, applied));
    if let Err(e) = applied {
        return Err(e);
    }
    proof {
        let u: () = applied->Ok_0;
        assert(u == ());
        assert(applied == Ok::<(), AppError>(()));
    }
    assert(header_prepared(header, h, write.department_name, write.supplier_name));
    assert(confirmed_written(*write, *effects, document_id@, document_no@, header, all));
    Ok(())
}

/// Submits a document that takes effect at once and answers its fresh id:
/// the document is numbered first, then written and put into effect.
pub fn submit_stock_document<RL, L, P, C, CN, D, S, IH, IL, LP, LL, PC, EB, FI, AI, AO, AU>(
    header: HeaderRequest,
    lines: Vec<RL>,
    count_numbered: &CN,
    write: &WriteSteps<D, S, IH, IL>,
    effects: &EffectSteps<LP, LL, PC, EB, FI, AI, AO, AU>,
) -> (r: AppResult<String>) where
    CN: Fn(&str) -> AppResult<u64>,
    D: Fn(&str) -> AppResult<Option<String>>,
    S: Fn(&str) -> AppResult<Option<String>>,
    IH: Fn(&str, &str, &DocumentHeader) -> AppResult<()>,
    IL: Fn(&str, PricingRole, RL) -> AppResult<()>,
    LP: Fn(&str, &str) -> AppResult<Option<(String, bool)>>,
    LL: Fn(&str) -> AppResult<Vec<ConfirmLine<L>>>,
    PC: Fn(&Vec<ConfirmLine<L>>) -> AppResult<C>,
    EB: Fn(&DocumentHeader, &str, &str, &Vec<ConfirmLine<L>>, &Option<C>) -> AppResult<()>,
    FI: Fn(&str) -> AppResult<Option<StockItem<P>>>,
    AI: Fn(&str, &str, &ConfirmLine<L>, &DocumentHeader, &str) -> AppResult<()>,
    AO: Fn(&str, &ConfirmLine<L>, &DocumentHeader, &P, &str) -> AppResult<()>,
    AU: Fn(&str, &str, &str, &str) -> AppResult<()>,

    requires
        forall|p: &str| call_requires(*count_numbered, (p,)),
        forall|p: &str, n: u64| call_ensures(*count_numbered, (p,), Ok::<u64, AppError>(n)) ==> n < u64::MAX,
        forall|s: &str| call_requires(write.department_name, (s,)),
        forall|s: &str| call_requires(write.supplier_name, (s,)),
        forall|s: &str, n: &str, h: &DocumentHeader| call_requires(write.insert_header, (s, n, h)),
        forall|s: &str, role: PricingRole, l: RL| call_requires(write.insert_line, (s, role, l)),
        forall|t: &str, i: &str| call_requires(effects.lookup_party, (t, i)),
        forall|d: &str| call_requires(effects.load_lines, (d,)),
        forall|ls: &Vec<ConfirmLine<L>>| call_requires(effects.plan_costs, (ls,)),
        forall|h: &DocumentHeader, d: &str, m: &str, ls: &Vec<ConfirmLine<L>>, c: &Option<C>|
            call_requires(effects.enforce_budget, (h, d, m, ls, c)),
        forall|s: &str| call_requires(effects.find_item, (s,)),
        forall|i: &str, n: &str, l: &ConfirmLine<L>, h: &DocumentHeader, o: &str|
            call_requires(effects.apply_inbound, (i, n, l, h, o)),
        forall|i: &str, l: &ConfirmLine<L>, h: &DocumentHeader, p: &P, o: &str|
            call_requires(effects.apply_outbound, (i, l, h, p, o)),
        forall|a: &str, i: &str, s: &str, o: &str| call_requires(effects.audit, (a, i, s, o)),
    ensures
        r matches Ok(id) ==> id@.len() == 36 && exists|no: Seq<char>|
            #[trigger] document_numbered(*count_numbered, header.document_type@, header.business_date@, no)
                && confirmed_written(*write, *effects, id@, no, header, lines@),
        exists|numbered: AppResult<String>|
            {
                &&& #[trigger] numbering_result(*count_numbered, header.document_type@, header.business_date@, numbered)
                &&& match numbered {
                    Err(e) => r == Err::<String, AppError>(e),
                    Ok(no) => submitted_after_number(*write, *effects, no@, header, lines@, r),
                }
            },
{
    let id = new_id();
    let numbered = assign_document_no(header.document_type.as_str(), header.business_date.as_str(), count_numbered);
    let no = match numbered {
        Ok(n) => n,
        Err(e) => {
            return Err(e);
        },
    };
    let ghost all = lines@;
    let inserted = insert_confirmed_document(id.as_str(), no.as_str(), header, lines, write, effects);
    assert(insert_result(*write, *effects, id@, no@, header, all, inserted));
    if let Err(e) = inserted {
        assert(submitted_after_number(*write, *effects, no@, header, all, Err::<String, AppError>(e)));
        return Err(e);
    }
    let r = Ok(id);
    assert(submitted_after_number(*write, *effects, no@, header, all, r));
    r
}

/// A saved document as confirmation finds it.
pub struct StoredDraft {
    pub document_no: String,
    pub status: String,
    pub header: DocumentHeader,
}

/// The steps of confirming a draft: `find` finds a saved document;
/// `load_lines` reads its lines as a submission carries them; `validate`
/// checks the submission (header and lines); `mark_confirmed` marks the
/// document confirmed with the approval it was confirmed under.
pub struct ConfirmSteps<FD, LS, VD, MC> {
    pub find: FD,
    pub load_lines: LS,
    pub validate: VD,
    pub mark_confirmed: MC,
}

/// The header a draft is confirmed with: the stored one, with the approval
/// given at confirmation or else the saved one.
pub open spec fn confirmed_header(stored: DocumentHeader, approval_request_id: Option<String>) -> DocumentHeader {
    DocumentHeader {
        approval_request_id: match approval_request_id {
            Some(a) => Some(a),
            None => stored.approval_request_id,
        },
        ..stored
    }
}

/// The last stages of confirming draft `id` (numbered `no`, confirmed with
/// header `h`) once its submission was checked: putting it into effect,
/// then marking it confirmed with the (trimmed, non-blank) approval.
pub open spec fn confirm_after_check<SL, L, P, C, FD, LS, VD, MC, LP, LL, PC, EB, FI, AI, AO, AU>(
    steps: ConfirmSteps<FD, LS, VD, MC>,
    effects: EffectSteps<LP, LL, PC, EB, FI, AI, AO, AU>,
    id: Seq<char>,
    no: Seq<char>,
    h: DocumentHeader,
    r: AppResult<()>,
) -> bool where
    FD: Fn(&str) -> AppResult<Option<StoredDraft>>,
    LS: Fn(&str) -> AppResult<Vec<SL>>,
    VD: Fn(&DocumentHeader, &Vec<SL>) -> AppResult<()>,
    MC: Fn(&str, Option<&str>) -> AppResult<()>,
    LP: Fn(&str, &str) -> AppResult<Option<(String, bool)>>,
    LL: Fn(&str) -> AppResult<Vec<ConfirmLine<L>>>,
    PC: Fn(&Vec<ConfirmLine<L>>) -> AppResult<C>,
    EB: Fn(&DocumentHeader, &str, &str, &Vec<ConfirmLine<L>>, &Option<C>) -> AppResult<()>,
    FI: Fn(&str) -> AppResult<Option<StockItem<P>>>,
    AI: Fn(&str, &str, &ConfirmLine<L>, &DocumentHeader, &str) -> AppResult<()>,
    AO: Fn(&str, &ConfirmLine<L>, &DocumentHeader, &P, &str) -> AppResult<()>,
    AU: Fn(&str, &str, &str, &str) -> AppResult<()>,
 {
    exists|applied: AppResult<()>|
        {
            &&& #[trigger] effects_result(effects, id, no, h, applied)
            &&& match applied {
                Err(e) => r == Err::<(), AppError>(e),
                Ok(_) => exists|d: &str, a: Option<&str>|
                    {
                        &&& d@ == id
                        &&& opt_str_view(a) == spec_blank_to_none(opt_view(h.approval_request_id))
                        &&& #[trigger] call_ensures(steps.mark_confirmed, (d, a), r)
                    },
            }
        }
}

/// The stages of confirming draft `id` once its lines were read: an
/// outbound document other than a sale to guests that names no department
/// is refused; else `validate` checks the submission, then
/// `confirm_after_check`.
pub open spec fn confirm_after_lines<SL, L, P, C, FD, LS, VD, MC, LP, LL, PC, EB, FI, AI, AO, AU>(
    steps: ConfirmSteps<FD, LS, VD, MC>,
    effects: EffectSteps<LP, LL, PC, EB, FI, AI, AO, AU>,
    id: Seq<char>,
    no: Seq<char>,
    h: DocumentHeader,
    lines: Vec<SL>,
    r: AppResult<()>,
) -> bool where
    FD: Fn(&str) -> AppResult<Option<StoredDraft>>,
    LS: Fn(&str) -> AppResult<Vec<SL>>,
    VD: Fn(&DocumentHeader, &Vec<SL>) -> AppResult<()>,
    MC: Fn(&str, Option<&str>) -> AppResult<()>,
    LP: Fn(&str, &str) -> AppResult<Option<(String, bool)>>,
    LL: Fn(&str) -> AppResult<Vec<ConfirmLine<L>>>,
    PC: Fn(&Vec<ConfirmLine<L>>) -> AppResult<C>,
    EB: Fn(&DocumentHeader, &str, &str, &Vec<ConfirmLine<L>>, &Option<C>) -> AppResult<()>,
    FI: Fn(&str) -> AppResult<Option<StockItem<P>>>,
    AI: Fn(&str, &str, &ConfirmLine<L>, &DocumentHeader, &str) -> AppResult<()>,
    AO: Fn(&str, &ConfirmLine<L>, &DocumentHeader, &P, &str) -> AppResult<()>,
    AU: Fn(&str, &str, &str, &str) -> AppResult<()>,
 {
    if spec_department_required(h.document_type@, opt_view(h.outbound_kind), opt_view(h.department_id)) {
        r matches Err(e) && is_validation(e, department_required_message())
    } else {
        exists|checked: AppResult<()>|
            {
                &&& #[trigger] call_ensures(steps.validate, (&h, &lines), checked)
                &&& match checked {
                    Err(e) => r == Err::<(), AppError>(e),
                    Ok(_) => confirm_after_check(steps, effects, id, no, h, r),
                }
            }
    }
}

/// The stages of confirming draft `id` once `saved` was found: a document
/// that is no longer a draft is refused; else its lines are read, then
/// `confirm_after_lines` with its stored header and the approval.
pub open spec fn confirm_after_found<SL, L, P, C, FD, LS, VD, MC, LP, LL, PC, EB, FI, AI, AO, AU>(
    steps: ConfirmSteps<FD, LS, VD, MC>,
    effects: EffectSteps<LP, LL, PC, EB, FI, AI, AO, AU>,
    id: Seq<char>,
    saved: StoredDraft,
    approval_request_id: Option<String>,
    r: AppResult<()>,
) -> bool where
    FD: Fn(&str) -> AppResult<Option<StoredDraft>>,
    LS: Fn(&str) -> AppResult<Vec<SL>>,
    VD: Fn(&DocumentHeader, &Vec<SL>) -> AppResult<()>,
    MC: Fn(&str, Option<&str>) -> AppResult<()>,
    LP: Fn(&str, &str) -> AppResult<Option<(String, bool)>>,
    LL: Fn(&str) -> AppResult<Vec<ConfirmLine<L>>>,
    PC: Fn(&Vec<ConfirmLine<L>>) -> AppResult<C>,
    EB: Fn(&DocumentHeader, &str, &str, &Vec<ConfirmLine<L>>, &Option<C>) -> AppResult<()>,
    FI: Fn(&str) -> AppResult<Option<StockItem<P>>>,
    AI: Fn(&str, &str, &ConfirmLine<L>, &DocumentHeader, &str) -> AppResult<()>,
    AO: Fn(&str, &ConfirmLine<L>, &DocumentHeader, &P, &str) -> AppResult<()>,
    AU: Fn(&str, &str, &str, &str) -> AppResult<()>,
 {
    if saved.status@ != "draft"@ {
        r matches Err(e) && is_validation(e, "只能确认草稿单据"@)
    } else {
        exists|d: &str, loaded: AppResult<Vec<SL>>|
            {
                &&& d@ == id
                &&& #[trigger] call_ensures(steps.load_lines, (d,), loaded)
                &&& match loaded {
                    Err(e) => r == Err::<(), AppError>(e),
                    Ok(lines) => confirm_after_lines(
                        steps,
                        effects,
                        id,
                        saved.document_no@,
                        confirmed_header(saved.header, approval_request_id),
                        lines,
                        r,
                    ),
                }
            }
    }
}

/// What confirming saved draft `id` gives, the first refusal or error being
/// the answer: finding it (a missing document is refused), the draft
/// check, reading its lines, checking the submission, putting it into
/// effect and marking it confirmed.
pub open spec fn confirm_result<SL, L, P, C, FD, LS, VD, MC, LP, LL, PC, EB, FI, AI, AO, AU>(
    steps: ConfirmSteps<FD, LS, VD, MC>,
    effects: EffectSteps<LP, LL, PC, EB, FI, AI, AO, AU>,
    id: Seq<char>,
    approval_request_id: Option<String>,
    r: AppResult<()>,
) -> bool where
    FD: Fn(&str) -> AppResult<Option<StoredDraft>>,
    LS: Fn(&str) -> AppResult<Vec<SL>>,
    VD: Fn(&DocumentHeader, &Vec<SL>) -> AppResult<()>,
    MC: Fn(&str, Option<&str>) -> AppResult<()>,
    LP: Fn(&str, &str) -> AppResult<Option<(String, bool)>>,
    LL: Fn(&str) -> AppResult<Vec<ConfirmLine<L>>>,
    PC: Fn(&Vec<ConfirmLine<L>>) -> AppResult<C>,
    EB: Fn(&DocumentHeader, &str, &str, &Vec<ConfirmLine<L>>, &Option<C>) -> AppResult<()>,
    FI: Fn(&str) -> AppResult<Option<StockItem<P>>>,
    AI: Fn(&str, &str, &ConfirmLine<L>, &DocumentHeader, &str) -> AppResult<()>,
    AO: Fn(&str, &ConfirmLine<L>, &DocumentHeader, &P, &str) -> AppResult<()>,
    AU: Fn(&str, &str, &str, &str) -> AppResult<()>,
 {
    exists|d: &str, looked: AppResult<Option<StoredDraft>>|
        {
            &&& d@ == id
            &&& #[trigger] call_ensures(steps.find, (d,), looked)
            &&& match looked {
                Err(e) => r == Err::<(), AppError>(e),
                Ok(None) => r matches Err(e) && is_validation(e, "草稿单据不存在"@),
                Ok(Some(saved)) => confirm_after_found(steps, effects, id, saved, approval_request_id, r),
            }
        }
}

/// Confirms saved draft `document_id`, under `approval_request_id` or else
/// the approval saved with it: the draft must exist and still be a draft;
/// its lines are read and the submission checked (an outbound document
/// other than a sale to guests must name a department); it is put into effect and
/// marked confirmed with the (trimmed, non-blank) approval.
pub fn confirm_stock_document_draft<SL, L, P, C, FD, LS, VD, MC, LP, LL, PC, EB, FI, AI, AO, AU>(
    document_id: &str,
    approval_request_id: Option<String>,
    steps: &ConfirmSteps<FD, LS, VD, MC>,
    effects: &EffectSteps<LP, LL, PC, EB, FI, AI, AO, AU>,
) -> (r: AppResult<()>) where
    FD: Fn(&str) -> AppResult<Option<StoredDraft>>,
    LS: Fn(&str) -> AppResult<Vec<SL>>,
    VD: Fn(&DocumentHeader, &Vec<SL>) -> AppResult<()>,
    MC: Fn(&str, Option<&str>) -> AppResult<()>,
    LP: Fn(&str, &str) -> AppResult<Option<(String, bool)>>,
    LL: Fn(&str) -> AppResult<Vec<ConfirmLine<L>>>,
    PC: Fn(&Vec<ConfirmLine<L>>) -> AppResult<C>,
    EB: Fn(&DocumentHeader, &str, &str, &Vec<ConfirmLine<L>>, &Option<C>) -> AppResult<()>,
    FI: Fn(&str) -> AppResult<Option<StockItem<P>>>,
    AI: Fn(&str, &str, &ConfirmLine<L>, &DocumentHeader, &str) -> AppResult<()>,
    AO: Fn(&str, &ConfirmLine<L>, &DocumentHeader, &P, &str) -> AppResult<()>,
    AU: Fn(&str, &str, &str, &str) -> AppResult<()>,

    requires
        forall|s: &str| call_requires(steps.find, (s,)),
        forall|s: &str| call_requires(steps.load_lines, (s,)),
        forall|h: &DocumentHeader, ls: &Vec<SL>| call_requires(steps.validate, (h, ls)),
        forall|s: &str, a: Option<&str>| call_requires(steps.mark_confirmed, (s, a)),
        forall|t: &str, i: &str| call_requires(effects.lookup_party, (t, i)),
        forall|d: &str| call_requires(effects.load_lines, (d,)),
        forall|ls: &Vec<ConfirmLine<L>>| call_requires(effects.plan_costs, (ls,)),
        forall|h: &DocumentHeader, d: &str, m: &str, ls: &Vec<ConfirmLine<L>>, c: &Option<C>|
            call_requires(effects.enforce_budget, (h, d, m, ls, c)),
        forall|s: &str| call_requires(effects.find_item, (s,)),
        forall|i: &str, n: &str, l: &ConfirmLine<L>, h: &DocumentHeader, o: &str|
            call_requires(effects.apply_inbound, (i, n, l, h, o)),
        forall|i: &str, l: &ConfirmLine<L>, h: &DocumentHeader, p: &P, o: &str|
            call_requires(effects.apply_outbound, (i, l, h, p, o)),
        forall|a: &str, i: &str, s: &str, o: &str| call_requires(effects.audit, (a, i, s, o)),
    ensures
        r is Ok ==> exists|d: &str, saved: StoredDraft|
            {
                &&& d@ == document_id@
                &&& #[trigger] call_ensures(steps.find, (d,), Ok::<Option<StoredDraft>, AppError>(Some(saved)))
                &&& saved.status@ == "draft"@
                &&& exists|ls: Vec<SL>, done: AppResult<()>|
                    #[trigger] call_ensures(steps.load_lines, (d,), Ok::<Vec<SL>, AppError>(ls)) && #[trigger] call_ensures(
                        steps.validate,
                        (&confirmed_header(saved.header, approval_request_id), &ls),
                        done,
                    ) && done is Ok
                &&& effects_applied(*effects, document_id@, saved.document_no@, confirmed_header(saved.header, approval_request_id))
                &&& exists|a: Option<&str>, done: AppResult<()>|
                    opt_str_view(a) == spec_blank_to_none(
                        opt_view(confirmed_header(saved.header, approval_request_id).approval_request_id),
                    ) && #[trigger] call_ensures(steps.mark_confirmed, (d, a), done) && done is Ok
            },
        confirm_result(*steps, *effects, document_id@, approval_request_id, r),
{
    let looked = (steps.find)(document_id);
    assert(call_ensures(steps.find, (document_id,), looked));
    let saved = match looked {
        Err(e) => {
            return Err(e);
        },
        Ok(None) => {
            return Err(validation("草稿单据不存在"));
        },
        Ok(Some(saved)) => saved,
    };
    assert(call_ensures(steps.find, (document_id,), Ok::<Option<StoredDraft>, AppError>(Some(saved))));
    let ghost g = saved;
    let ghost approval_given = approval_request_id;
    let confirmable = check_draft_confirmable(saved.status.as_str());
    if let Err(e) = confirmable {
        assert(confirm_after_found(*steps, *effects, document_id@, g, approval_given, Err::<(), AppError>(e)));
        return Err(e);
    }
    let loaded = (steps.load_lines)(document_id);
    assert(call_ensures(steps.load_lines, (document_id,), loaded));
    let lines = match loaded {
        Ok(ls) => ls,
        Err(e) => {
            assert(confirm_after_found(*steps, *effects, document_id@, g, approval_given, Err::<(), AppError>(e)));
            return Err(e);
        },
    };
    assert(call_ensures(steps.load_lines, (document_id,), Ok::<Vec<SL>, AppError>(lines)));
    let StoredDraft { document_no, status: _, header } = saved;
    let approval = match approval_request_id {
        Some(a) => Some(a),
        None => header.approval_request_id,
    };
    let header = DocumentHeader { approval_request_id: approval, ..header };
    assert(header == confirmed_header(g.header, approval_given));
    let named = check_outbound_department(
        header.document_type.as_str(),
        opt_as_str(&header.outbound_kind),
        opt_as_str(&header.department_id),
    );
    if let Err(e) = named {
        assert(confirm_after_lines(*steps, *effects, document_id@, document_no@, header, lines, Err::<(), AppError>(e)));
        assert(confirm_after_found(*steps, *effects, document_id@, g, approval_given, Err::<(), AppError>(e)));
        return Err(e);
    }
    let checked = (steps.validate)(&header, &lines);
    assert(call_ensures(steps.validate, (&header, &lines), checked));
    if let Err(e) = checked {
        assert(confirm_after_lines(*steps, *effects, document_id@, document_no@, header, lines, Err::<(), AppError>(e)));
        assert(confirm_after_found(*steps, *effects, document_id@, g, approval_given, Err::<(), AppError>(e)));
        return Err(e);
    }
    let applied = apply_confirmed_document_effects(document_id, document_no.as_str(), &header, effects);
    assert(effects_result(*effects, document_id@, document_no@, header, applied));
    if let Err(e) = applied {
        assert(confirm_after_check(*steps, *effects, document_id@, document_no@, header, Err::<(), AppError>(e)));
        assert(confirm_after_lines(*steps, *effects, document_id@, document_no@, header, lines, Err::<(), AppError>(e)));
        assert(confirm_after_found(*steps, *effects, document_id@, g, approval_given, Err::<(), AppError>(e)));
        return Err(e);
    }
    let final_approval = blank_to_none(copy_text(&header.approval_request_id));
    let a = opt_as_str(&final_approval);
    let marked = (steps.mark_confirmed)(document_id, a);
    assert(call_ensures(steps.mark_confirmed, (document_id, a), marked));
    assert(confirm_after_check(*steps, *effects, document_id@, document_no@, header, marked));
    assert(confirm_after_lines(*steps, *effects, document_id@, document_no@, header, lines, marked));
    assert(confirm_after_found(*steps, *effects, document_id@, g, approval_given, marked));
    if let Err(e) = marked {
        return Err(e);
    }
    proof {
        let u: () = marked->Ok_0;
        assert(u == ());
        assert(marked == Ok::<(), AppError>(()));
    }
    Ok(())
}

/// A line of a stock adjustment: the item, whether stock goes `"in"` or
/// out, an optional remark, and the figures the library carries through.
pub struct AdjustmentLine<F> {
    pub item_id: String,
    pub direction: String,
    pub remark: Option<String>,
    pub figures: F,
}

/// A stock adjustment as it is submitted.
pub struct AdjustmentRequest<F> {
    pub business_date: String,
    pub handler: Option<String>,
    pub adjustment_type: String,
    pub reason: String,
    pub lines: Vec<AdjustmentLine<F>>,
}

/// The steps of an adjustment: `count_numbered` counts the documents whose
/// numbers match a pattern; `insert_header` writes the confirmed document
/// (id, number, header); `insert_line` writes a line (document id, line id,
/// line); `move_in` puts a line's stock into a new batch (document id, line
/// id, number, line, operator, remark); `move_out` takes a line's stock out
/// of the oldest batches (document id, line id, line, operator, remark);
/// `audit` writes an audit entry.
pub struct AdjustmentSteps<CN, IH, IL, MI, MO, AU> {
    pub count_numbered: CN,
    pub insert_header: IH,
    pub insert_line: IL,
    pub move_in: MI,
    pub move_out: MO,
    pub audit: AU,
}

/// The header of an adjustment: its type is the purpose, its reason the
/// remark, and it names no party, kind or approval.
pub open spec fn adjustment_header<F>(request: AdjustmentRequest<F>, h: DocumentHeader) -> bool {
    &&& h.document_type@ == "adjustment"@
    &&& h.outbound_kind is None
    &&& h.business_date@ == request.business_date@
    &&& h.department_id is None
    &&& h.department_name is None
    &&& h.supplier_id is None
    &&& h.supplier_name is None
    &&& opt_view(h.handler) == spec_blank_to_none(opt_view(request.handler))
    &&& opt_view(h.purpose) == Some(request.adjustment_type@)
    &&& h.approval_request_id is None
    &&& opt_view(h.remark) == Some(request.reason@)
}

/// The remark of the movement of an adjustment line: its own remark, or
/// the adjustment's type and reason.
pub open spec fn adjustment_remark<F>(line: AdjustmentLine<F>, adjustment_type: Seq<char>, reason: Seq<char>) -> Seq<char> {
    match line.remark {
        Some(r) => r@,
        None => adjustment_type + "："@ + reason,
    }
}

/// Line `line` of adjustment `id` (numbered `no`) was written under a fresh
/// line id and moved its stock in or out with `operator` and its remark.
pub open spec fn adjustment_line_done<F, IL, MI, MO>(
    insert_line: IL,
    move_in: MI,
    move_out: MO,
    id: Seq<char>,
    no: Seq<char>,
    line: AdjustmentLine<F>,
    operator: Seq<char>,
    remark: Seq<char>,
) -> bool where
    IL: Fn(&str, &str, &AdjustmentLine<F>) -> AppResult<()>,
    MI: Fn(&str, &str, &str, &AdjustmentLine<F>, &str, &str) -> AppResult<()>,
    MO: Fn(&str, &str, &AdjustmentLine<F>, &str, &str) -> AppResult<()>,
 {
    exists|d: &str, l: &str, written: AppResult<()>|
        {
            &&& d@ == id
            &&& l@.len() == 36
            &&& #[trigger] call_ensures(insert_line, (d, l, &line), written)
            &&& written is Ok
            &&& line.direction@ == "in"@ ==> exists|n: &str, o: &str, k: &str, done: AppResult<()>|
                n@ == no && o@ == operator && k@ == remark && #[trigger] call_ensures(move_in, (d, l, n, &line, o, k), done)
                    && done is Ok
            &&& line.direction@ != "in"@ ==> exists|o: &str, k: &str, done: AppResult<()>|
                o@ == operator && k@ == remark && #[trigger] call_ensures(move_out, (d, l, &line, o, k), done) && done is Ok
        }
}

/// What a successful adjustment did, for the document that got id `id`.
pub open spec fn adjustment_done<F, CN, IH, IL, MI, MO, AU>(
    steps: AdjustmentSteps<CN, IH, IL, MI, MO, AU>,
    request: AdjustmentRequest<F>,
    id: Seq<char>,
) -> bool where
    CN: Fn(&str) -> AppResult<u64>,
    IH: Fn(&str, &str, &DocumentHeader) -> AppResult<()>,
    IL: Fn(&str, &str, &AdjustmentLine<F>) -> AppResult<()>,
    MI: Fn(&str, &str, &str, &AdjustmentLine<F>, &str, &str) -> AppResult<()>,
    MO: Fn(&str, &str, &AdjustmentLine<F>, &str, &str) -> AppResult<()>,
    AU: Fn(&str, &str, &str, &str) -> AppResult<()>,
 {
    exists|no: Seq<char>, h: DocumentHeader|
        #![trigger document_numbered(steps.count_numbered, "adjustment"@, request.business_date@, no), adjustment_header(request, h)]
        {
            &&& document_numbered(steps.count_numbered, "adjustment"@, request.business_date@, no)
            &&& adjustment_header(request, h)
            &&& exists|i: &str, n: &str, done: AppResult<()>|
                i@ == id && n@ == no && #[trigger] call_ensures(steps.insert_header, (i, n, &h), done) && done is Ok
            &&& forall|k: int|
                0 <= k < request.lines@.len() ==> adjustment_line_done(
                    steps.insert_line,
                    steps.move_in,
                    steps.move_out,
                    id,
                    no,
                    #[trigger] request.lines@[k],
                    spec_operator(request.handler),
                    adjustment_remark(request.lines@[k], request.adjustment_type@, request.reason@),
                )
            &&& audited(steps.audit, "submit_adjustment"@, id, no, spec_operator(request.handler))
        }
}

/// What writing and moving line `line` of adjustment `id` (numbered `no`)
/// gives: the line is written under a fresh line id, its error being the
/// answer; then its stock moves in or out with `operator` and `remark`, and
/// that answer is the result.
pub open spec fn adjustment_line_result<F, IL, MI, MO>(
    insert_line: IL,
    move_in: MI,
    move_out: MO,
    id: Seq<char>,
    no: Seq<char>,
    line: AdjustmentLine<F>,
    operator: Seq<char>,
    remark: Seq<char>,
    res: AppResult<()>,
) -> bool where
    IL: Fn(&str, &str, &AdjustmentLine<F>) -> AppResult<()>,
    MI: Fn(&str, &str, &str, &AdjustmentLine<F>, &str, &str) -> AppResult<()>,
    MO: Fn(&str, &str, &AdjustmentLine<F>, &str, &str) -> AppResult<()>,
 {
    exists|d: &str, l: &str, written: AppResult<()>|
        {
            &&& d@ == id
            &&& l@.len() == 36
            &&& #[trigger] call_ensures(insert_line, (d, l, &line), written)
            &&& match written {
                Err(e) => res == Err::<(), AppError>(e),
                Ok(_) => if line.direction@ == "in"@ {
                    exists|n: &str, o: &str, k: &str|
                        n@ == no && o@ == operator && k@ == remark && #[trigger] call_ensures(
                            move_in,
                            (d, l, n, &line, o, k),
                            res,
                        )
                } else {
                    exists|o: &str, k: &str|
                        o@ == operator && k@ == remark && #[trigger] call_ensures(move_out, (d, l, &line, o, k), res)
                },
            }
        }
}

/// What handling the lines of adjustment `request` in order gives: every
/// line done, or the lines before line `k` done and line `k` failed with
/// the answer.
pub open spec fn adjustment_lines_result<F, IL, MI, MO>(
    insert_line: IL,
    move_in: MI,
    move_out: MO,
    id: Seq<char>,
    no: Seq<char>,
    request: AdjustmentRequest<F>,
    res: AppResult<()>,
) -> bool where
    IL: Fn(&str, &str, &AdjustmentLine<F>) -> AppResult<()>,
    MI: Fn(&str, &str, &str, &AdjustmentLine<F>, &str, &str) -> AppResult<()>,
    MO: Fn(&str, &str, &AdjustmentLine<F>, &str, &str) -> AppResult<()>,
 {
    let lines = request.lines@;
    let op = spec_operator(request.handler);
    ||| res is Ok && forall|j: int|
        0 <= j < lines.len() ==> adjustment_line_result(
            insert_line,
            move_in,
            move_out,
            id,
            no,
            #[trigger] lines[j],
            op,
            adjustment_remark(lines[j], request.adjustment_type@, request.reason@),
            Ok(()),
        )
    ||| res is Err && exists|k: int|
        #![trigger lines[k]]
        {
            &&& 0 <= k < lines.len()
            &&& forall|j: int|
                0 <= j < k ==> adjustment_line_result(
                    insert_line,
                    move_in,
                    move_out,
                    id,
                    no,
                    #[trigger] lines[j],
                    op,
                    adjustment_remark(lines[j], request.adjustment_type@, request.reason@),
                    Ok(()),
                )
            &&& adjustment_line_result(
                insert_line,
                move_in,
                move_out,
                id,
                no,
                lines[k],
                op,
                adjustment_remark(lines[k], request.adjustment_type@, request.reason@),
                res,
            )
        }
}

/// The stages of an adjustment once its header is written under id `id`
/// and number `no`: its lines in order, then the audit entry; the first
/// error is the answer, or else the id.
pub open spec fn adjustment_after_header<F, CN, IH, IL, MI, MO, AU>(
    steps: AdjustmentSteps<CN, IH, IL, MI, MO, AU>,
    request: AdjustmentRequest<F>,
    id: Seq<char>,
    no: Seq<char>,
    r: AppResult<String>,
) -> bool where
    CN: Fn(&str) -> AppResult<u64>,
    IH: Fn(&str, &str, &DocumentHeader) -> AppResult<()>,
    IL: Fn(&str, &str, &AdjustmentLine<F>) -> AppResult<()>,
    MI: Fn(&str, &str, &str, &AdjustmentLine<F>, &str, &str) -> AppResult<()>,
    MO: Fn(&str, &str, &AdjustmentLine<F>, &str, &str) -> AppResult<()>,
    AU: Fn(&str, &str, &str, &str) -> AppResult<()>,
 {
    exists|moved: AppResult<()>|
        {
            &&& #[trigger] adjustment_lines_result(steps.insert_line, steps.move_in, steps.move_out, id, no, request, moved)
            &&& match moved {
                Err(e) => r == Err::<String, AppError>(e),
                Ok(_) => exists|audited: AppResult<()>|
                    {
                        &&& #[trigger] audit_result(
                            steps.audit,
                            "submit_adjustment"@,
                            id,
                            no,
                            spec_operator(request.handler),
                            audited,
                        )
                        &&& match audited {
                            Err(e) => r == Err::<String, AppError>(e),
                            Ok(_) => r matches Ok(x) && x@ == id,
                        }
                    },
            }
        }
}

/// What an adjustment gives, the first error being the answer: numbering
/// it, writing its header under a fresh id, then `adjustment_after_header`.
pub open spec fn adjustment_result<F, CN, IH, IL, MI, MO, AU>(
    steps: AdjustmentSteps<CN, IH, IL, MI, MO, AU>,
    request: AdjustmentRequest<F>,
    r: AppResult<String>,
) -> bool where
    CN: Fn(&str) -> AppResult<u64>,
    IH: Fn(&str, &str, &DocumentHeader) -> AppResult<()>,
    IL: Fn(&str, &str, &AdjustmentLine<F>) -> AppResult<()>,
    MI: Fn(&str, &str, &str, &AdjustmentLine<F>, &str, &str) -> AppResult<()>,
    MO: Fn(&str, &str, &AdjustmentLine<F>, &str, &str) -> AppResult<()>,
    AU: Fn(&str, &str, &str, &str) -> AppResult<()>,
 {
    exists|numbered: AppResult<String>|
        {
            &&& #[trigger] numbering_result(steps.count_numbered, "adjustment"@, request.business_date@, numbered)
            &&& match numbered {
                Err(e) => r == Err::<String, AppError>(e),
                Ok(no) => exists|i: &str, n: &str, h: DocumentHeader, inserted: AppResult<()>|
                    {
                        &&& i@.len() == 36
                        &&& n@ == no@
                        &&& adjustment_header(request, h)
                        &&& #[trigger] call_ensures(steps.insert_header, (i, n, &h), inserted)
                        &&& match inserted {
                            Err(e) => r == Err::<String, AppError>(e),
                            Ok(_) => adjustment_after_header(steps, request, i@, no@, r),
                        }
                    },
            }
        }
}

fn movement_remark<F>(line: &AdjustmentLine<F>, adjustment_type: &str, reason: &str) -> (r: String)
    ensures
        r@ == adjustment_remark(*line, adjustment_type@, reason@),
{
    match &line.remark {
        Some(r) => r.clone(),
        None => String::from_str(adjustment_type).concat("：").concat(reason),
    }
}

/// Submits a stock adjustment, which takes effect at once, and answers its
/// fresh id: the document is numbered and written; each line is written and
/// moves its stock in (into a new batch) or out (from the oldest batches);
/// the adjustment is audited.
pub fn submit_adjustment<F, CN, IH, IL, MI, MO, AU>(
    request: AdjustmentRequest<F>,
    steps: &AdjustmentSteps<CN, IH, IL, MI, MO, AU>,
) -> (r: AppResult<String>) where
    CN: Fn(&str) -> AppResult<u64>,
    IH: Fn(&str, &str, &DocumentHeader) -> AppResult<()>,
    IL: Fn(&str, &str, &AdjustmentLine<F>) -> AppResult<()>,
    MI: Fn(&str, &str, &str, &AdjustmentLine<F>, &str, &str) -> AppResult<()>,
    MO: Fn(&str, &str, &AdjustmentLine<F>, &str, &str) -> AppResult<()>,
    AU: Fn(&str, &str, &str, &str) -> AppResult<()>,

    requires
        forall|p: &str| call_requires(steps.count_numbered, (p,)),
        forall|p: &str, n: u64| call_ensures(steps.count_numbered, (p,), Ok::<u64, AppError>(n)) ==> n < u64::MAX,
        forall|s: &str, n: &str, h: &DocumentHeader| call_requires(steps.insert_header, (s, n, h)),
        forall|d: &str, l: &str, x: &AdjustmentLine<F>| call_requires(steps.insert_line, (d, l, x)),
        forall|d: &str, l: &str, n: &str, x: &AdjustmentLine<F>, o: &str, k: &str| call_requires(steps.move_in, (d, l, n, x, o, k)),
        forall|d: &str, l: &str, x: &AdjustmentLine<F>, o: &str, k: &str| call_requires(steps.move_out, (d, l, x, o, k)),
        forall|a: &str, i: &str, s: &str, o: &str| call_requires(steps.audit, (a, i, s, o)),
    ensures
        r matches Ok(id) ==> id@.len() == 36 && adjustment_done(*steps, request, id@),
        adjustment_result(*steps, request, r),
{
    proof {
        reveal_strlit("adjustment");
        reveal_strlit("submit_adjustment");
    }
    let id = new_id();
    let numbered = assign_document_no("adjustment", request.business_date.as_str(), &steps.count_numbered);
    assert(numbering_result(steps.count_numbered, "adjustment"@, request.business_date@, numbered));
    let no = match numbered {
        Ok(n) => n,
        Err(e) => {
            return Err(e);
        },
    };
    let h = DocumentHeader {
        document_type: String::from_str("adjustment"),
        outbound_kind: None,
        business_date: request.business_date.clone(),
        department_id: None,
        department_name: None,
        supplier_id: None,
        supplier_name: None,
        handler: blank_to_none(copy_text(&request.handler)),
        purpose: Some(request.adjustment_type.clone()),
        approval_request_id: None,
        remark: Some(request.reason.clone()),
    };
    assert(adjustment_header(request, h));
    let (d, n) = (id.as_str(), no.as_str());
    let inserted = (steps.insert_header)(d, n, &h);
    assert(call_ensures(steps.insert_header, (d, n, &h), inserted));
    let ghost gi = inserted;
    if let Err(e) = inserted {
        return Err(e);
    }
    proof {
        let u: () = gi->Ok_0;
        assert(u == ());
        assert(gi == Ok::<(), AppError>(()));
    }
    assert(call_ensures(steps.insert_header, (d, n, &h), Ok::<(), AppError>(())));
    let operator = operator_name(copy_text(&request.handler));
    let ghost op = spec_operator(request.handler);
    let lines = &request.lines;
    let mut moved: AppResult<()> = Ok(());
    let mut i: usize = 0;
    while i < lines.len()
        invariant_except_break
            moved is Ok,
            forall|j: int|
                0 <= j < i ==> adjustment_line_result(
                    steps.insert_line,
                    steps.move_in,
                    steps.move_out,
                    id@,
                    no@,
                    #[trigger] request.lines@[j],
                    op,
                    adjustment_remark(request.lines@[j], request.adjustment_type@, request.reason@),
                    Ok(()),
                ),
            forall|j: int|
                0 <= j < i ==> adjustment_line_done(
                    steps.insert_line,
                    steps.move_in,
                    steps.move_out,
                    id@,
                    no@,
                    #[trigger] request.lines@[j],
                    op,
                    adjustment_remark(request.lines@[j], request.adjustment_type@, request.reason@),
                ),
        invariant
            i <= lines.len(),
            lines == &request.lines,
            operator@ == op,
            d@ == id@,
            n@ == no@,
            op == spec_operator(request.handler),
            forall|d: &str, l: &str, x: &AdjustmentLine<F>| call_requires(steps.insert_line, (d, l, x)),
            forall|d: &str, l: &str, n: &str, x: &AdjustmentLine<F>, o: &str, k: &str| call_requires(steps.move_in, (d, l, n, x, o, k)),
            forall|d: &str, l: &str, x: &AdjustmentLine<F>, o: &str, k: &str| call_requires(steps.move_out, (d, l, x, o, k)),
        ensures
            adjustment_lines_result(steps.insert_line, steps.move_in, steps.move_out, id@, no@, request, moved),
            moved is Ok ==> forall|j: int|
                0 <= j < request.lines@.len() ==> adjustment_line_done(
                    steps.insert_line,
                    steps.move_in,
                    steps.move_out,
                    id@,
                    no@,
                    #[trigger] request.lines@[j],
                    op,
                    adjustment_remark(request.lines@[j], request.adjustment_type@, request.reason@),
                ),
        decreases lines.len() - i,
    {
        let line = &lines[i];
        let line_id = new_id();
        let l = line_id.as_str();
        let written = (steps.insert_line)(d, l, line);
        assert(call_ensures(steps.insert_line, (d, l, line), written));
        let remark = movement_remark(line, request.adjustment_type.as_str(), request.reason.as_str());
        let (o, k) = (operator.as_str(), remark.as_str());
        let step: AppResult<()> = match written {
            Err(e) => Err(e),
            Ok(_) => if same_text(line.direction.as_str(), "in") {
                let done = (steps.move_in)(d, l, n, line, o, k);
                assert(call_ensures(steps.move_in, (d, l, n, line, o, k), done));
                done
            } else {
                let done = (steps.move_out)(d, l, line, o, k);
                assert(call_ensures(steps.move_out, (d, l, line, o, k), done));
                done
            },
        };
        proof {
            reveal_strlit("in");
        }
        assert(adjustment_line_result(
            steps.insert_line,
            steps.move_in,
            steps.move_out,
            id@,
            no@,
            request.lines@[i as int],
            op,
            adjustment_remark(request.lines@[i as int], request.adjustment_type@, request.reason@),
            step,
        ));
        let ghost gstep = step;
        if let Err(e) = step {
            moved = Err(e);
            assert(adjustment_lines_result(steps.insert_line, steps.move_in, steps.move_out, id@, no@, request, moved));
            break;
        }
        proof {
            let u: () = gstep->Ok_0;
            assert(u == ());
            assert(gstep == Ok::<(), AppError>(()));
            assert(written is Ok);
            let w: () = written->Ok_0;
            assert(w == ());
            assert(call_ensures(steps.insert_line, (d, l, line), Ok::<(), AppError>(())));
        }
        assert(adjustment_line_done(
            steps.insert_line,
            steps.move_in,
            steps.move_out,
            id@,
            no@,
            request.lines@[i as int],
            op,
            adjustment_remark(request.lines@[i as int], request.adjustment_type@, request.reason@),
        ));
        i = i + 1;
    }
    if let Err(e) = moved {
        assert(adjustment_after_header(*steps, request, id@, no@, Err::<String, AppError>(e)));
        return Err(e);
    }
    let (a, o) = ("submit_adjustment", operator.as_str());
    let written = (steps.audit)(a, d, n, o);
    assert(call_ensures(steps.audit, (a, d, n, o), written));
    assert(audit_result(steps.audit, "submit_adjustment"@, id@, no@, op, written));
    if let Err(e) = written {
        assert(adjustment_after_header(*steps, request, id@, no@, Err::<String, AppError>(e)));
        return Err(e);
    }
    proof {
        let u: () = written->Ok_0;
        assert(u == ());
        assert(written == Ok::<(), AppError>(()));
    }
    assert(adjustment_done(*steps, request, id@));
    let r = Ok(id);
    assert(adjustment_after_header(*steps, request, r->Ok_0@, no@, r));
    r
}

/// A stocktake as it is started: the scope (`"all"`, a category or chosen
/// items, as the item lookup reads it) and who counts.
pub struct StocktakeRequest {
    pub business_date: String,
    pub scope_type: String,
    pub category_id: Option<String>,
    pub item_ids: Vec<String>,
    pub handler: Option<String>,
    pub remark: Option<String>,
}

/// An item to count, with its book quantity carried through as `book`.
pub struct CountItem<Q> {
    pub item_id: String,
    pub book: Q,
}

/// The steps of starting a stocktake: `next_number` numbers a stocktake of
/// a business date; `insert_document` writes the draft document (document
/// id, number, date, handler, scope, remark); `insert_stocktake` writes the
/// stocktake (stocktake id, document id, scope); `items_in_scope` lists the
/// items of a scope (scope, category, chosen items); `insert_line` writes a
/// line to count (stocktake id, line id, item); `audit` writes an audit
/// entry.
pub struct StocktakeSteps<NN, ID, IS, IT, IL, AU> {
    pub next_number: NN,
    pub insert_document: ID,
    pub insert_stocktake: IS,
    pub items_in_scope: IT,
    pub insert_line: IL,
    pub audit: AU,
}

/// What starting a stocktake did, for the stocktake that got id `id`.
pub open spec fn stocktake_started<Q, NN, ID, IS, IT, IL, AU>(
    steps: StocktakeSteps<NN, ID, IS, IT, IL, AU>,
    request: StocktakeRequest,
    id: Seq<char>,
) -> bool where
    NN: Fn(&str) -> AppResult<String>,
    ID: Fn(&str, &str, &str, Option<&str>, &str, Option<&str>) -> AppResult<()>,
    IS: Fn(&str, &str, &str) -> AppResult<()>,
    IT: Fn(&str, Option<&str>, &Vec<String>) -> AppResult<Vec<CountItem<Q>>>,
    IL: Fn(&str, &str, &CountItem<Q>) -> AppResult<()>,
    AU: Fn(&str, &str, &str, &str) -> AppResult<()>,
 {
    exists|date: &str, no: String, doc: Seq<char>, items: Vec<CountItem<Q>>|
        #![trigger call_ensures(steps.next_number, (date,), Ok::<String, AppError>(no)), stocktake_items(steps.items_in_scope, request, items), doc.len()]
        {
            &&& date@ == request.business_date@
            &&& call_ensures(steps.next_number, (date,), Ok::<String, AppError>(no))
            &&& doc.len() == 36
            &&& exists|d: &str, n: &str, b: &str, h: Option<&str>, sc: &str, rm: Option<&str>, done: AppResult<()>|
                {
                    &&& d@ == doc
                    &&& n@ == no@
                    &&& b@ == request.business_date@
                    &&& opt_str_view(h) == spec_blank_to_none(opt_view(request.handler))
                    &&& sc@ == spec_trim(request.scope_type@)
                    &&& opt_str_view(rm) == spec_blank_to_none(opt_view(request.remark))
                    &&& #[trigger] call_ensures(steps.insert_document, (d, n, b, h, sc, rm), done)
                    &&& done is Ok
                }
            &&& exists|t: &str, d: &str, sc: &str, done: AppResult<()>|
                t@ == id && d@ == doc && sc@ == spec_trim(request.scope_type@) && #[trigger] call_ensures(
                    steps.insert_stocktake,
                    (t, d, sc),
                    done,
                ) && done is Ok
            &&& stocktake_items(steps.items_in_scope, request, items)
            &&& items@.len() > 0
            &&& forall|k: int| 0 <= k < items@.len() ==> count_line_written(steps.insert_line, id, #[trigger] items@[k])
            &&& audited(steps.audit, "create_stocktake"@, id, no@, spec_operator(request.handler))
        }
}

/// A line to count `item` was written for stocktake `id` under a fresh
/// line id.
pub open spec fn count_line_written<Q, IL: Fn(&str, &str, &CountItem<Q>) -> AppResult<()>>(
    insert_line: IL,
    id: Seq<char>,
    item: CountItem<Q>,
) -> bool {
    exists|t: &str, l: &str, done: AppResult<()>|
        t@ == id && l@.len() == 36 && #[trigger] call_ensures(insert_line, (t, l, &item), done) && done is Ok
}

/// `items` are the items that `items_in_scope` listed for the request's
/// (trimmed) scope, category and chosen items.
pub open spec fn stocktake_items<Q, IT: Fn(&str, Option<&str>, &Vec<String>) -> AppResult<Vec<CountItem<Q>>>>(
    items_in_scope: IT,
    request: StocktakeRequest,
    items: Vec<CountItem<Q>>,
) -> bool {
    exists|sc: &str, c: Option<&str>|
        sc@ == spec_trim(request.scope_type@) && opt_str_view(c) == opt_view(request.category_id) && #[trigger] call_ensures(
            items_in_scope,
            (sc, c, &request.item_ids),
            Ok::<Vec<CountItem<Q>>, AppError>(items),
        )
}

/// The message for a stocktake whose scope holds nothing to count.
pub open spec fn empty_stocktake_message() -> Seq<char> {
    "盘点范围内没有可盘点物品"@
}

/// What writing a line to count each of `items` for stocktake `id` in
/// order gives: every line written, or the lines before item `k` written
/// and the line of item `k` failed with the answer.
pub open spec fn count_lines_result<Q, IL: Fn(&str, &str, &CountItem<Q>) -> AppResult<()>>(
    insert_line: IL,
    id: Seq<char>,
    items: Seq<CountItem<Q>>,
    res: AppResult<()>,
) -> bool {
    ||| res is Ok && forall|j: int| 0 <= j < items.len() ==> count_line_written(insert_line, id, #[trigger] items[j])
    ||| res is Err && exists|k: int|
        #![trigger items[k]]
        {
            &&& 0 <= k < items.len()
            &&& forall|j: int| 0 <= j < k ==> count_line_written(insert_line, id, #[trigger] items[j])
            &&& exists|t: &str, l: &str|
                t@ == id && l@.len() == 36 && #[trigger] call_ensures(insert_line, (t, l, &items[k]), res)
        }
}

/// The stages of starting stocktake `id` (numbered `no`) once its items in
/// scope were listed: a line for each, then the audit entry; the first
/// error is the answer, or else the id.
pub open spec fn stocktake_after_items<Q, NN, ID, IS, IT, IL, AU>(
    steps: StocktakeSteps<NN, ID, IS, IT, IL, AU>,
    request: StocktakeRequest,
    id: Seq<char>,
    no: Seq<char>,
    items: Seq<CountItem<Q>>,
    r: AppResult<String>,
) -> bool where
    NN: Fn(&str) -> AppResult<String>,
    ID: Fn(&str, &str, &str, Option<&str>, &str, Option<&str>) -> AppResult<()>,
    IS: Fn(&str, &str, &str) -> AppResult<()>,
    IT: Fn(&str, Option<&str>, &Vec<String>) -> AppResult<Vec<CountItem<Q>>>,
    IL: Fn(&str, &str, &CountItem<Q>) -> AppResult<()>,
    AU: Fn(&str, &str, &str, &str) -> AppResult<()>,
 {
    exists|written: AppResult<()>|
        {
            &&& #[trigger] count_lines_result(steps.insert_line, id, items, written)
            &&& match written {
                Err(e) => r == Err::<String, AppError>(e),
                Ok(_) => exists|audited: AppResult<()>|
                    {
                        &&& #[trigger] audit_result(
                            steps.audit,
                            "create_stocktake"@,
                            id,
                            no,
                            spec_operator(request.handler),
                            audited,
                        )
                        &&& match audited {
                            Err(e) => r == Err::<String, AppError>(e),
                            Ok(_) => r matches Ok(x) && x@ == id,
                        }
                    },
            }
        }
}

/// The stages of starting stocktake `id` once it is written: listing the
/// items in scope, its error being the answer and a scope without items
/// being refused; then `stocktake_after_items`.
pub open spec fn stocktake_after_stocktake<Q, NN, ID, IS, IT, IL, AU>(
    steps: StocktakeSteps<NN, ID, IS, IT, IL, AU>,
    request: StocktakeRequest,
    id: Seq<char>,
    no: Seq<char>,
    r: AppResult<String>,
) -> bool where
    NN: Fn(&str) -> AppResult<String>,
    ID: Fn(&str, &str, &str, Option<&str>, &str, Option<&str>) -> AppResult<()>,
    IS: Fn(&str, &str, &str) -> AppResult<()>,
    IT: Fn(&str, Option<&str>, &Vec<String>) -> AppResult<Vec<CountItem<Q>>>,
    IL: Fn(&str, &str, &CountItem<Q>) -> AppResult<()>,
    AU: Fn(&str, &str, &str, &str) -> AppResult<()>,
 {
    exists|sc: &str, c: Option<&str>, listed: AppResult<Vec<CountItem<Q>>>|
        {
            &&& sc@ == spec_trim(request.scope_type@)
            &&& opt_str_view(c) == opt_view(request.category_id)
            &&& #[trigger] call_ensures(steps.items_in_scope, (sc, c, &request.item_ids), listed)
            &&& match listed {
                Err(e) => r == Err::<String, AppError>(e),
                Ok(items) => if items@.len() == 0 {
                    r matches Err(e) && is_validation(e, empty_stocktake_message())
                } else {
                    stocktake_after_items(steps, request, id, no, items@, r)
                },
            }
        }
}

/// The stages of starting a stocktake once its document `doc` is written:
/// writing the stocktake under a fresh id, its error being the answer; then
/// `stocktake_after_stocktake`.
pub open spec fn stocktake_after_document<Q, NN, ID, IS, IT, IL, AU>(
    steps: StocktakeSteps<NN, ID, IS, IT, IL, AU>,
    request: StocktakeRequest,
    doc: Seq<char>,
    no: Seq<char>,
    r: AppResult<String>,
) -> bool where
    NN: Fn(&str) -> AppResult<String>,
    ID: Fn(&str, &str, &str, Option<&str>, &str, Option<&str>) -> AppResult<()>,
    IS: Fn(&str, &str, &str) -> AppResult<()>,
    IT: Fn(&str, Option<&str>, &Vec<String>) -> AppResult<Vec<CountItem<Q>>>,
    IL: Fn(&str, &str, &CountItem<Q>) -> AppResult<()>,
    AU: Fn(&str, &str, &str, &str) -> AppResult<()>,
 {
    exists|t: &str, d: &str, sc: &str, written: AppResult<()>|
        {
            &&& t@.len() == 36
            &&& d@ == doc
            &&& sc@ == spec_trim(request.scope_type@)
            &&& #[trigger] call_ensures(steps.insert_stocktake, (t, d, sc), written)
            &&& match written {
                Err(e) => r == Err::<String, AppError>(e),
                Ok(_) => stocktake_after_stocktake(steps, request, t@, no, r),
            }
        }
}

/// What starting a stocktake gives, the first refusal or error being the
/// answer: numbering it by its date; writing its draft document under a
/// fresh id (date, handler and remark trimmed and dropped when blank, the
/// trimmed scope); then `stocktake_after_document`.
pub open spec fn stocktake_result<Q, NN, ID, IS, IT, IL, AU>(
    steps: StocktakeSteps<NN, ID, IS, IT, IL, AU>,
    request: StocktakeRequest,
    r: AppResult<String>,
) -> bool where
    NN: Fn(&str) -> AppResult<String>,
    ID: Fn(&str, &str, &str, Option<&str>, &str, Option<&str>) -> AppResult<()>,
    IS: Fn(&str, &str, &str) -> AppResult<()>,
    IT: Fn(&str, Option<&str>, &Vec<String>) -> AppResult<Vec<CountItem<Q>>>,
    IL: Fn(&str, &str, &CountItem<Q>) -> AppResult<()>,
    AU: Fn(&str, &str, &str, &str) -> AppResult<()>,
 {
    exists|date: &str, numbered: AppResult<String>|
        {
            &&& date@ == request.business_date@
            &&& #[trigger] call_ensures(steps.next_number, (date,), numbered)
            &&& match numbered {
                Err(e) => r == Err::<String, AppError>(e),
                Ok(no) => exists|
                    d: &str,
                    n: &str,
                    b: &str,
                    h: Option<&str>,
                    sc: &str,
                    rm: Option<&str>,
                    written: AppResult<()>,
                |
                    {
                        &&& d@.len() == 36
                        &&& n@ == no@
                        &&& b@ == request.business_date@
                        &&& opt_str_view(h) == spec_blank_to_none(opt_view(request.handler))
                        &&& sc@ == spec_trim(request.scope_type@)
                        &&& opt_str_view(rm) == spec_blank_to_none(opt_view(request.remark))
                        &&& #[trigger] call_ensures(steps.insert_document, (d, n, b, h, sc, rm), written)
                        &&& match written {
                            Err(e) => r == Err::<String, AppError>(e),
                            Ok(_) => stocktake_after_document(steps, request, d@, no@, r),
                        }
                    },
            }
        }
}

/// Starts a stocktake and answers its fresh id: a draft stocktake document
/// and the stocktake (counting) are written, then a line for every item in
/// scope; a scope without items is refused.  The start is audited.
pub fn create_stocktake<Q, NN, ID, IS, IT, IL, AU>(
    request: StocktakeRequest,
    steps: &StocktakeSteps<NN, ID, IS, IT, IL, AU>,
) -> (r: AppResult<String>) where
    NN: Fn(&str) -> AppResult<String>,
    ID: Fn(&str, &str, &str, Option<&str>, &str, Option<&str>) -> AppResult<()>,
    IS: Fn(&str, &str, &str) -> AppResult<()>,
    IT: Fn(&str, Option<&str>, &Vec<String>) -> AppResult<Vec<CountItem<Q>>>,
    IL: Fn(&str, &str, &CountItem<Q>) -> AppResult<()>,
    AU: Fn(&str, &str, &str, &str) -> AppResult<()>,

    requires
        forall|d: &str| call_requires(steps.next_number, (d,)),
        forall|d: &str, n: &str, b: &str, h: Option<&str>, sc: &str, rm: Option<&str>|
            call_requires(steps.insert_document, (d, n, b, h, sc, rm)),
        forall|t: &str, d: &str, sc: &str| call_requires(steps.insert_stocktake, (t, d, sc)),
        forall|sc: &str, c: Option<&str>, ids: &Vec<String>| call_requires(steps.items_in_scope, (sc, c, ids)),
        forall|t: &str, l: &str, x: &CountItem<Q>| call_requires(steps.insert_line, (t, l, x)),
        forall|a: &str, i: &str, s: &str, o: &str| call_requires(steps.audit, (a, i, s, o)),
    ensures
        r matches Ok(id) ==> id@.len() == 36 && stocktake_started(*steps, request, id@),
        stocktake_result(*steps, request, r),
{
    proof {
        reveal_strlit("create_stocktake");
    }
    let document_id = new_id();
    let stocktake_id = new_id();
    let date = request.business_date.as_str();
    let numbered = (steps.next_number)(date);
    assert(call_ensures(steps.next_number, (date,), numbered));
    let no = match numbered {
        Ok(n) => n,
        Err(e) => {
            return Err(e);
        },
    };
    assert(call_ensures(steps.next_number, (date,), Ok::<String, AppError>(no)));
    let scope = trim(request.scope_type.as_str());
    let handler = blank_to_none(copy_text(&request.handler));
    let remark = blank_to_none(copy_text(&request.remark));
    let (d, n, h, rm) = (document_id.as_str(), no.as_str(), opt_as_str(&handler), opt_as_str(&remark));
    let written = (steps.insert_document)(d, n, date, h, scope, rm);
    assert(call_ensures(steps.insert_document, (d, n, date, h, scope, rm), written));
    let ghost gd = written;
    if let Err(e) = written {
        return Err(e);
    }
    let t = stocktake_id.as_str();
    let written = (steps.insert_stocktake)(t, d, scope);
    assert(call_ensures(steps.insert_stocktake, (t, d, scope), written));
    let ghost gs = written;
    if let Err(e) = written {
        assert(stocktake_after_document(*steps, request, document_id@, no@, Err::<String, AppError>(e)));
        return Err(e);
    }
    let c = opt_as_str(&request.category_id);
    let listed = (steps.items_in_scope)(scope, c, &request.item_ids);
    assert(call_ensures(steps.items_in_scope, (scope, c, &request.item_ids), listed));
    let items = match listed {
        Ok(items) => items,
        Err(e) => {
            assert(stocktake_after_stocktake(*steps, request, stocktake_id@, no@, Err::<String, AppError>(e)));
            assert(stocktake_after_document(*steps, request, document_id@, no@, Err::<String, AppError>(e)));
            return Err(e);
        },
    };
    assert(call_ensures(steps.items_in_scope, (scope, c, &request.item_ids), Ok::<Vec<CountItem<Q>>, AppError>(items)));
    assert(stocktake_items(steps.items_in_scope, request, items));
    if items.len() == 0 {
        let r = Err(validation("盘点范围内没有可盘点物品"));
        assert(stocktake_after_stocktake(*steps, request, stocktake_id@, no@, r));
        assert(stocktake_after_document(*steps, request, document_id@, no@, r));
        return r;
    }
    let mut written_lines: AppResult<()> = Ok(());
    let mut i: usize = 0;
    while i < items.len()
        invariant_except_break
            written_lines is Ok,
            forall|k: int| 0 <= k < i ==> count_line_written(steps.insert_line, stocktake_id@, #[trigger] items@[k]),
        invariant
            i <= items.len(),
            t@ == stocktake_id@,
            forall|t: &str, l: &str, x: &CountItem<Q>| call_requires(steps.insert_line, (t, l, x)),
        ensures
            count_lines_result(steps.insert_line, stocktake_id@, items@, written_lines),
            written_lines is Ok ==> forall|k: int|
                0 <= k < items@.len() ==> count_line_written(steps.insert_line, stocktake_id@, #[trigger] items@[k]),
        decreases items.len() - i,
    {
        let line_id = new_id();
        let l = line_id.as_str();
        let item = &items[i];
        let written = (steps.insert_line)(t, l, item);
        assert(call_ensures(steps.insert_line, (t, l, item), written));
        let ghost gw = written;
        if let Err(e) = written {
            written_lines = Err(e);
            assert(count_lines_result(steps.insert_line, stocktake_id@, items@, written_lines));
            break;
        }
        proof {
            let u: () = gw->Ok_0;
            assert(u == ());
            assert(gw == Ok::<(), AppError>(()));
        }
        assert(count_line_written(steps.insert_line, stocktake_id@, items@[i as int]));
        i = i + 1;
    }
    if let Err(e) = written_lines {
        assert(stocktake_after_items(*steps, request, stocktake_id@, no@, items@, Err::<String, AppError>(e)));
        assert(stocktake_after_stocktake(*steps, request, stocktake_id@, no@, Err::<String, AppError>(e)));
        assert(stocktake_after_document(*steps, request, document_id@, no@, Err::<String, AppError>(e)));
        return Err(e);
    }
    let operator = operator_name(copy_text(&request.handler));
    let (a, o) = ("create_stocktake", operator.as_str());
    let audited_answer = (steps.audit)(a, t, n, o);
    assert(call_ensures(steps.audit, (a, t, n, o), audited_answer));
    assert(audit_result(steps.audit, "create_stocktake"@, stocktake_id@, no@, spec_operator(request.handler), audited_answer));
    let ghost ga = audited_answer;
    if let Err(e) = audited_answer {
        assert(stocktake_after_items(*steps, request, stocktake_id@, no@, items@, Err::<String, AppError>(e)));
        assert(stocktake_after_stocktake(*steps, request, stocktake_id@, no@, Err::<String, AppError>(e)));
        assert(stocktake_after_document(*steps, request, document_id@, no@, Err::<String, AppError>(e)));
        return Err(e);
    }
    proof {
        let u: () = ga->Ok_0;
        assert(u == ());
        assert(ga == Ok::<(), AppError>(()));
        let u2: () = gd->Ok_0;
        assert(u2 == ());
        let u3: () = gs->Ok_0;
        assert(u3 == ());
    }
    assert(stocktake_started(*steps, request, stocktake_id@));
    let r = Ok(stocktake_id);
    assert(stocktake_after_items(*steps, request, r->Ok_0@, no@, items@, r));
    assert(stocktake_after_stocktake(*steps, request, r->Ok_0@, no@, r));
    assert(stocktake_after_document(*steps, request, document_id@, no@, r));
    r
}

/// A counted line of a stocktake: the quantity counted, if any, travels as
/// `counted`.
pub struct CountEntry<Q> {
    pub line_id: String,
    pub counted: Option<Q>,
    pub remark: Option<String>,
}

/// The message for a count below zero.
pub open spec fn negative_count_message() -> Seq<char> {
    "实盘数量不能小于 0"@
}

/// Records counts on stocktake `stocktake_id`, whose status `status` read:
/// a confirmed or voided stocktake takes none.  Each entry in order is
/// refused if its count (when there is one) is `negative`, then stored by
/// `update_line` (stocktake id, entry, trimmed remark), which answers how
/// many lines of that stocktake it changed: none means the line is not one
/// of its lines.
pub fn update_stocktake_counts<Q, NG, UL>(
    stocktake_id: &str,
    status: &str,
    entries: &Vec<CountEntry<Q>>,
    negative: &NG,
    update_line: &UL,
) -> (r: AppResult<()>) where
    NG: Fn(&Q) -> bool,
    UL: Fn(&str, &CountEntry<Q>, Option<&str>) -> AppResult<usize>,

    requires
        forall|q: &Q| call_requires(*negative, (q,)),
        forall|t: &str, x: &CountEntry<Q>, rm: Option<&str>| call_requires(*update_line, (t, x, rm)),
    ensures
        status@ == "confirmed"@ ==> (r matches Err(e) && is_validation(e, "已确认的盘点单不能修改"@)),
        status@ == "voided"@ ==> (r matches Err(e) && is_validation(e, "已作废的盘点单不能修改"@)),
        r is Ok ==> status@ != "confirmed"@ && status@ != "voided"@ && forall|k: int|
            0 <= k < entries@.len() ==> count_stored(*negative, *update_line, stocktake_id@, #[trigger] entries@[k]),
        r matches Err(e) ==> {
            ||| is_validation(e, "已确认的盘点单不能修改"@)
            ||| is_validation(e, "已作废的盘点单不能修改"@)
            ||| exists|q: &Q| call_ensures(*negative, (q,), true) && is_validation(e, negative_count_message())
            ||| exists|t: &str, x: &CountEntry<Q>, rm: Option<&str>| call_ensures(*update_line, (t, x, rm), Err::<usize, AppError>(e))
            ||| exists|t: &str, x: &CountEntry<Q>, rm: Option<&str>|
                call_ensures(*update_line, (t, x, rm), Ok::<usize, AppError>(0)) && is_validation(
                    e,
                    "盘点明细不存在或不属于当前盘点单："@ + x.line_id@,
                )
        },
{
    check_stocktake_editable(status)?;
    let mut i: usize = 0;
    while i < entries.len()
        invariant
            i <= entries.len(),
            status@ != "confirmed"@ && status@ != "voided"@,
            forall|q: &Q| call_requires(*negative, (q,)),
            forall|t: &str, x: &CountEntry<Q>, rm: Option<&str>| call_requires(*update_line, (t, x, rm)),
            forall|k: int| 0 <= k < i ==> count_stored(*negative, *update_line, stocktake_id@, #[trigger] entries@[k]),
        decreases entries.len() - i,
    {
        let entry = &entries[i];
        if let Some(q) = &entry.counted {
            let below = negative(q);
            assert(call_ensures(*negative, (q,), below));
            if below {
                return Err(validation("实盘数量不能小于 0"));
            }
        }
        let remark = blank_to_none(copy_text(&entry.remark));
        let rm = opt_as_str(&remark);
        let changed = update_line(stocktake_id, entry, rm);
        assert(call_ensures(*update_line, (stocktake_id, entry, rm), changed));
        let n = match changed {
            Ok(n) => n,
            Err(e) => {
                return Err(e);
            },
        };
        assert(call_ensures(*update_line, (stocktake_id, entry, rm), Ok::<usize, AppError>(n)));
        if n == 0 {
            return Err(AppError::Validation(
                String::from_str("盘点明细不存在或不属于当前盘点单：").concat(entry.line_id.as_str()),
            ));
        }
        assert(count_stored(*negative, *update_line, stocktake_id@, entries@[i as int]));
        i = i + 1;
    }
    Ok(())
}

/// Entry `x` of stocktake `id` was stored: its count, if any, was not
/// negative, and it changed a line of the stocktake, with its remark
/// trimmed and dropped when blank.
pub open spec fn count_stored<Q, NG, UL>(negative: NG, update_line: UL, id: Seq<char>, x: CountEntry<Q>) -> bool where
    NG: Fn(&Q) -> bool,
    UL: Fn(&str, &CountEntry<Q>, Option<&str>) -> AppResult<usize>,
 {
    &&& (x.counted matches Some(q) ==> call_ensures(negative, (&q,), false))
    &&& exists|t: &str, rm: Option<&str>, n: usize|
        t@ == id && opt_str_view(rm) == spec_blank_to_none(opt_view(x.remark)) && #[trigger] call_ensures(
            update_line,
            (t, &x, rm),
            Ok::<usize, AppError>(n),
        ) && n > 0
}

/// Law: a void that reverses batch movements recomputes the balance of
/// every item it moved, and of no item twice or that it did not move.
pub proof fn law_reversal_syncs_each_item_once<F>(ms: Seq<BatchMovement<F>>)
    ensures
        first_seen_items(ms).no_duplicates(),
        forall|i: int| 0 <= i < ms.len() ==> first_seen_items(ms).contains(#[trigger] ms[i].item_id@),
        forall|k: int|
            0 <= k < first_seen_items(ms).len() ==> exists|i: int|
                0 <= i < ms.len() && ms[i].item_id@ == #[trigger] first_seen_items(ms)[k],
    decreases ms.len(),
{
    if ms.len() > 0 {
        let p = ms.drop_last();
        law_reversal_syncs_each_item_once(p);
        let seen = first_seen_items(p);
        assert forall|i: int| 0 <= i < ms.len() implies first_seen_items(ms).contains(#[trigger] ms[i].item_id@) by {
            if i < ms.len() - 1 {
                assert(ms[i] == p[i]);
                assert(seen.contains(p[i].item_id@));
                if !seen.contains(ms.last().item_id@) {
                    let j = choose|j: int| 0 <= j < seen.len() && seen[j] == p[i].item_id@;
                    assert(seen.push(ms.last().item_id@)[j] == p[i].item_id@);
                }
            } else {
                if !seen.contains(ms.last().item_id@) {
                    assert(seen.push(ms.last().item_id@)[seen.len() as int] == ms.last().item_id@);
                }
            }
        }
        assert forall|k: int| 0 <= k < first_seen_items(ms).len() implies exists|i: int|
            0 <= i < ms.len() && ms[i].item_id@ == #[trigger] first_seen_items(ms)[k] by {
            if k < seen.len() {
                let i = choose|i: int| 0 <= i < p.len() && p[i].item_id@ == seen[k];
                assert(ms[i] == p[i]);
            } else {
                assert(ms[ms.len() - 1].item_id@ == first_seen_items(ms)[k]);
            }
        }
    }
}

/// Law: reversing a movement twice gives back its direction, for the two
/// directions that movements have.
pub proof fn law_reversal_restores_direction(direction: Seq<char>)
    requires
        direction == "in"@ || direction == "out"@,
    ensures
        spec_reverse_direction(spec_reverse_direction(direction)) == direction,
{
    reveal_strlit("in");
    reveal_strlit("out");
}

/// Law: a sale to guests is priced as a sale and is never held to a
/// department budget, whatever department it names.
pub proof fn law_guest_sales_skip_budgets(h: DocumentHeader)
    requires
        h.document_type@ == "outbound"@,
        spec_outbound_kind(h.document_type@, opt_view(h.outbound_kind)) == Ok::<Option<Seq<char>>, Seq<char>>(
            Some("guest_sale"@),
        ),
    ensures
        spec_budget_scope(h) == Ok::<Option<(Seq<char>, Seq<char>)>, Seq<char>>(None),
        spec_pricing_role(h.document_type@, Some("guest_sale"@)) == PricingRole::Sale,
{
    reveal_strlit("inbound");
    reveal_strlit("outbound");
    assert("inbound"@.len() != "outbound"@.len());
}

} // verus!
