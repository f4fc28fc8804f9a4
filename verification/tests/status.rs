use webgl_sphere::status::{status_passed, BuildFailure};

#[test]
fn only_true_passes() {
    assert!(status_passed(Some(true)));
    assert!(!status_passed(Some(false)));
    assert!(!status_passed(None));
}

#[test]
fn missing_shader_object_message() {
    assert_eq!(
        BuildFailure::NoShaderObject.message(),
        "Unable to create shader object"
    );
}

#[test]
fn compile_failure_reports_the_info_log() {
    let log = String::from("ERROR: 0:3: 'vec5' : undeclared identifier");
    assert_eq!(BuildFailure::Compile(Some(log.clone())).message(), log);
}

#[test]
fn compile_failure_without_info_log() {
    assert_eq!(
        BuildFailure::Compile(None).message(),
        "Unknown error creating shader"
    );
}

#[test]
fn link_failure_reports_the_info_log() {
    let log = String::from("Varyings with the same name but different type");
    assert_eq!(BuildFailure::Link(Some(log.clone())).message(), log);
}

#[test]
fn link_failure_without_info_log() {
    assert_eq!(
        BuildFailure::Link(None).message(),
        "Unknown error linking program"
    );
}

#[test]
fn empty_info_log_is_reported_as_it_is() {
    assert_eq!(BuildFailure::Compile(Some(String::new())).message(), "");
    assert_eq!(BuildFailure::Link(Some(String::new())).message(), "");
}

#[test]
fn failures_compare_by_kind_and_log() {
    assert_eq!(BuildFailure::Compile(None), BuildFailure::Compile(None));
    assert_ne!(BuildFailure::Compile(None), BuildFailure::Link(None));
    assert_ne!(
        BuildFailure::Link(Some(String::from("a"))),
        BuildFailure::Link(Some(String::from("b")))
    );
}
