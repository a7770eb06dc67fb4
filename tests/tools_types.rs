use api::tools::{Params, ResponseData, ResponseStatus};

#[test]
fn params_defaults() {
    let p = Params { page: None, posts_per_page: None };
    assert_eq!(p.resolved(), (1, 5));
    let p = Params { page: Some(3), posts_per_page: Some(20) };
    assert_eq!(p.resolved(), (3, 20));
}

#[test]
fn success_envelope() {
    let r = ResponseData::success(vec![1, 2]);
    assert_eq!(r.status, ResponseStatus::Success);
    assert_eq!(r.code, 200);
    assert!(r.message.is_none());
    assert_eq!(r.data, Some(vec![1, 2]));
}
