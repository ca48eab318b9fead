use novamind::status::Status;
use novamind::tasks::{check_ai_task, submit_ai_task, submit_ai_task_as, SubmitAITaskRequest};

fn request() -> SubmitAITaskRequest {
    SubmitAITaskRequest {
        requester: "nvd_00112233".to_string(),
        ai_prompt_hash: "h".to_string(),
        model_output: "out".to_string(),
    }
}

#[test]
fn task_is_stored_as_pending() {
    let row = submit_ai_task_as(request(), "0a1b", 77).unwrap();
    assert_eq!(row.task_id, "ai_task_0a1b");
    assert_eq!(row.requester, "nvd_00112233");
    assert_eq!(row.ai_prompt_hash, "h");
    assert_eq!(row.model_output, "out");
    assert_eq!(row.status, "pending");
    assert_eq!(row.created_at, 77);
}

#[test]
fn task_without_address_or_hash_is_refused() {
    let mut r = request();
    r.requester.push('x');
    assert_eq!(submit_ai_task(r).err(), Some(Status::BadRequest));
    let mut r = request();
    r.ai_prompt_hash.clear();
    assert_eq!(submit_ai_task(r).err(), Some(Status::BadRequest));
}

#[test]
fn task_is_dated_by_the_clock() {
    let mut r = request();
    r.model_output.clear();
    let row = submit_ai_task(r).unwrap();
    assert_eq!(row.task_id.len(), 40);
    assert!(row.task_id.starts_with("ai_task_"));
    assert!(row.created_at > 1_600_000_000);
}

#[test]
fn task_is_checked_before_it_is_stored() {
    assert!(check_ai_task(&request()));
    let mut r = request();
    r.ai_prompt_hash.clear();
    assert!(!check_ai_task(&r));
    assert_eq!(submit_ai_task_as(r, "0a1b", 77).err(), Some(Status::BadRequest));
}
