use novamind::status::{write_status, Status};

#[test]
fn codes() {
    assert_eq!(Status::Done.code(), 200);
    assert_eq!(Status::Created.code(), 201);
    assert_eq!(Status::BadRequest.code(), 400);
    assert_eq!(Status::Forbidden.code(), 403);
    assert_eq!(Status::NotFound.code(), 404);
    assert_eq!(Status::Conflict.code(), 409);
    assert_eq!(Status::TooManyRequests.code(), 429);
    assert_eq!(Status::InternalServerError.code(), 500);
}

#[test]
fn written_rows() {
    assert_eq!(write_status(true), Status::Created);
    assert_eq!(write_status(false), Status::InternalServerError);
}
