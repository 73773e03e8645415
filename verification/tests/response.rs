use groot::response::{graph_def_response, status_response, write_batch_response, Response};

#[test]
fn write_batch_success_carries_schema_flag() {
    let r = write_batch_response(Ok(true));
    assert!(r.success);
    assert!(r.has_ddl);
    assert_eq!(r.err_msg, None);
    let r = write_batch_response(Ok(false));
    assert!(r.success);
    assert!(!r.has_ddl);
}

#[test]
fn write_batch_failure_carries_message() {
    let r = write_batch_response(Err("bad batch".to_string()));
    assert_eq!(r, Response::new_error("bad batch".to_string()));
    assert!(!r.success);
    assert_eq!(r.err_msg, Some("bad batch".to_string()));
}

#[test]
fn status_answers() {
    assert_eq!(status_response(Ok(())), Response::new_success());
    let r = status_response(Err("gc failed".to_string()));
    assert!(!r.success);
    assert!(!r.has_ddl);
    assert_eq!(r.err_msg, Some("gc failed".to_string()));
    assert_eq!(r.data, None);
}

#[test]
fn graph_def_answers() {
    let r = graph_def_response(Ok(vec![1, 2, 3]));
    assert!(r.success);
    assert_eq!(r.data, Some(vec![1, 2, 3]));
    assert_eq!(r.err_msg, None);
    let r = graph_def_response(Err("no schema".to_string()));
    assert!(!r.success);
    assert_eq!(r.data, None);
    assert_eq!(r.err_msg, Some("no schema".to_string()));
}

#[test]
fn refused_data_turns_into_failure() {
    let mut r = graph_def_response(Ok(vec![9]));
    r.refuse_data("too large".to_string());
    assert!(!r.success);
    assert_eq!(r.data, None);
    assert_eq!(r.err_msg, Some("too large".to_string()));
    let mut w = write_batch_response(Ok(true));
    w.refuse_data("x".to_string());
    assert!(w.has_ddl);
}
