//! Tasks whose results are checked by miners.
use crate::address::{is_nvd_address, validate_nvd_address};
use crate::clock::utc_seconds;
use crate::digest::{id_of_nanos, uuid_v4_simple};
use crate::status::Status;
use vstd::prelude::*;

verus! {

/// A request to have a task checked.
#[derive(Debug)]
pub struct SubmitAITaskRequest {
    pub requester: String,
    pub ai_prompt_hash: String,
    pub model_output: String,
}

/// A task as it is stored.
#[derive(Debug)]
pub struct AITaskRow {
    pub task_id: String,
    pub requester: String,
    pub ai_prompt_hash: String,
    pub model_output: String,
    pub status: String,
    pub created_at: i64,
}

/// Whether a task is taken: the requester has an address and the prompt a hash.
pub open spec fn task_accepted(req: SubmitAITaskRequest) -> bool {
    is_nvd_address(req.requester@) && req.ai_prompt_hash@.len() > 0
}

/// Whether `row` is what `req` is stored as at `created_at`, under the identifier `id`.
pub open spec fn task_row(
    req: SubmitAITaskRequest,
    id: Seq<char>,
    created_at: i64,
    row: AITaskRow,
) -> bool {
    &&& row.task_id@ == "ai_task_"@ + id
    &&& row.requester == req.requester
    &&& row.ai_prompt_hash == req.ai_prompt_hash
    &&& row.model_output == req.model_output
    &&& row.status@ == "pending"@
    &&& row.created_at == created_at
}

/// Whether a task is taken.
pub fn check_ai_task(req: &SubmitAITaskRequest) -> (b: bool)
    ensures
        b == task_accepted(*req),
{
    validate_nvd_address(req.requester.as_str()) && !req.ai_prompt_hash.as_str().is_empty()
}

/// The row that a task taken at `created_at`, under the identifier `id`, is stored as.
fn store_as(req: SubmitAITaskRequest, id: &str, created_at: i64) -> (row: AITaskRow)
    ensures
        task_row(req, id@, created_at, row),
{
    let mut task_id = "ai_task_".to_owned();
    task_id.append(id);
    AITaskRow {
        task_id,
        requester: req.requester,
        ai_prompt_hash: req.ai_prompt_hash,
        model_output: req.model_output,
        status: "pending".to_owned(),
        created_at,
    }
}

/// Takes or refuses a task at `created_at`, under the identifier `id`.
pub fn submit_ai_task_as(req: SubmitAITaskRequest, id: &str, created_at: i64) -> (r: Result<
    AITaskRow,
    Status,
>)
    ensures
        match r {
            Ok(row) => task_accepted(req) && task_row(req, id@, created_at, row),
            Err(status) => !task_accepted(req) && status == Status::BadRequest,
        },
{
    if !check_ai_task(&req) {
        return Err(Status::BadRequest);
    }
    Ok(store_as(req, id, created_at))
}

/// Takes or refuses a task at the time of the call, under a new identifier. The clock is
/// read only where the task is taken.
pub fn submit_ai_task(req: SubmitAITaskRequest) -> (r: Result<AITaskRow, Status>)
    ensures
        match r {
            Ok(row) => {
                &&& task_accepted(req)
                &&& row.task_id@.len() == 40
                &&& exists|nanos: Option<i64>, created_at: i64|
                    {
                        &&& nanos matches Some(n) ==> n >= 0
                        &&& created_at >= 0
                        &&& #[trigger] task_row(req, id_of_nanos(nanos), created_at, row)
                    }
            },
            Err(status) => !task_accepted(req) && status == Status::BadRequest,
        },
{
    if !check_ai_task(&req) {
        return Err(Status::BadRequest);
    }
    proof {
        reveal_strlit("ai_task_");
    }
    let id = uuid_v4_simple();
    let created_at: i64 = utc_seconds();
    Ok(store_as(req, id.as_str(), created_at))
}

/// A task is taken wherever the requester has an address and the prompt's hash is not empty,
/// however long it is and whatever the output is, and nowhere else.
pub proof fn law_task_check(req: SubmitAITaskRequest, b: bool)
    requires
        call_ensures(check_ai_task, (&req,), b),
    ensures
        is_nvd_address(req.requester@) && req.ai_prompt_hash@.len() > 0 <==> task_accepted(req),
        b <==> is_nvd_address(req.requester@) && req.ai_prompt_hash@.len() > 0,
{
}

/// What is stored of a task that is taken is what was handed in, field by field, pending,
/// under the identifier behind `ai_task_`. One that is not taken is answered with
/// `BadRequest`.
pub proof fn law_task_is_stored_as_it_came(
    req: SubmitAITaskRequest,
    id: &str,
    created_at: i64,
    r: Result<AITaskRow, Status>,
)
    requires
        call_ensures(submit_ai_task_as, (req, id, created_at), r),
    ensures
        r is Ok <==> is_nvd_address(req.requester@) && req.ai_prompt_hash@.len() > 0,
        r is Err ==> r->Err_0 == Status::BadRequest,
        r matches Ok(row) ==> {
            &&& row.task_id@ == seq!['a', 'i', '_', 't', 'a', 's', 'k', '_'] + id@
            &&& row.requester@ == req.requester@
            &&& row.ai_prompt_hash@ == req.ai_prompt_hash@
            &&& row.model_output@ == req.model_output@
            &&& row.status@ == "pending"@
            &&& row.created_at == created_at
        },
{
    reveal_strlit("ai_task_");
    assert("ai_task_"@ =~= seq!['a', 'i', '_', 't', 'a', 's', 'k', '_']);
}

/// A task that is taken at the time of the call is stored as it came too, at a time not
/// before 1970, under the identifier of some reading of the clock.
pub proof fn law_task_is_stored_now(req: SubmitAITaskRequest, r: Result<AITaskRow, Status>)
    requires
        call_ensures(submit_ai_task, (req,), r),
    ensures
        r is Ok <==> is_nvd_address(req.requester@) && req.ai_prompt_hash@.len() > 0,
        r is Err ==> r->Err_0 == Status::BadRequest,
        r matches Ok(row) ==> {
            &&& row.task_id@.len() == 40
            &&& row.task_id@.take(8) == seq!['a', 'i', '_', 't', 'a', 's', 'k', '_']
            &&& exists|nanos: Option<i64>| #[trigger]
                id_of_nanos(nanos) == row.task_id@.skip(8) && (nanos matches Some(n) ==> n >= 0)
            &&& row.requester@ == req.requester@
            &&& row.ai_prompt_hash@ == req.ai_prompt_hash@
            &&& row.model_output@ == req.model_output@
            &&& row.status@ == "pending"@
            &&& row.created_at >= 0
        },
{
    reveal_strlit("ai_task_");
    if let Ok(row) = r {
        let (nanos, created_at) = choose|nanos: Option<i64>, created_at: i64|
            {
                &&& nanos matches Some(n) ==> n >= 0
                &&& created_at >= 0
                &&& #[trigger] task_row(req, id_of_nanos(nanos), created_at, row)
            };
        assert(row.task_id@ == "ai_task_"@ + id_of_nanos(nanos));
        assert(row.task_id@.take(8) =~= seq!['a', 'i', '_', 't', 'a', 's', 'k', '_']);
        assert(row.task_id@.skip(8) =~= id_of_nanos(nanos));
    }
}

} // verus!
