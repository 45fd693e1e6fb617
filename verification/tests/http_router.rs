use qrkit::HttpRouter;

#[test]
fn return_error_for_eval_base_path_on_empty_router() {
    let router = HttpRouter::new();
    match router.eval("/").unwrap_err() {
        qrkit::HttpMatchError::NotFound => {}
    }
}

#[test]
fn f() {
    let _router = HttpRouter::new();
}
