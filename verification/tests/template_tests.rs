//! Tests of the path-template compiler: segment extraction, compilation,
//! matching, and capture mapping.

use aqua_web::template::{extract_segments, Expression, TemplateError};


/// The error a template is rejected with; panics when it compiles.
fn compile_err(template: &str) -> TemplateError {
    match Expression::from_template(template) {
        Ok(_) => panic!("expected {} to be rejected", template),
        Err(e) => e,
    }
}

#[test]
fn test_build_template() {
    match Expression::from_template("/{foo}/{bar}") {
        Err(e) => {
            panic!("{:?}", e);
        },
        _ => {},
    }
}

#[test]
fn test_match_template() {
    let exp_1 = Expression::from_template("/{foo}/{bar}/baz").unwrap();
    let result = exp_1.map_path("/hello/world/baz");

    assert!("hello" == &result.get("foo").unwrap()[..]);
    assert!("world" == &result.get("bar").unwrap()[..]);
}

// test extracting named params from template
#[test]
fn test_template_extractor_count() {
    let pass_cases = [(1, "/foo/{bar}"), (2, "/{foo}/{bar}"), (1, "/foo/{bar}/baz")];
    let fail_cases = ["/{foo{bar}}/baz", "/{foo/bar", "/foo}/bar"];

    for test_case in pass_cases.iter() {
        let (expected_results, test_template) = *test_case;
        match extract_segments(test_template) {
            Ok(segment) => {
                assert_eq!(expected_results, segment.len());
            },
            Err(e) => {
                panic!("{:?}", e);
            },
        }
    }

    for test_case in fail_cases.iter() {
        match extract_segments(*test_case) {
            Ok(result) => {
                panic!("got {} unexpected results", result.len());
            },
            Err(_) => {},
        }
    }
}

#[test]
fn test_no_extractions() {
    // tests that a pattern w/ no extractable parameters
    // can still be matched...
    let template = Expression::from_template("/foo/bar").unwrap();

    assert!(template.is_match("/foo/bar") == true);
    assert!(template.is_match("/baz/qux") == false);
}

#[test]
fn test_template_extractor_values() {
    let template = "/foo/{bar:pat}";

    match extract_segments(template) {
        Ok(meta_segment) => {
            let (_, ref segment) = meta_segment[0];
            assert!("bar:pat" == &segment[..]);
        },
        Err(msg) => {
            panic!("Error while extracting segments {:?}", msg);
        },
    }
}

#[test]
fn test_substituted_path_round_trip() {
    // compiling a template and substituting arbitrary non-slash strings
    // for each parameter yields a path the template matches, and the
    // extraction recovers exactly the substituted strings
    let exp = Expression::from_template("/posts/{id}/files/{name}").unwrap();
    let path = "/posts/42/files/cover.png";
    assert!(exp.is_match(path));
    let params = exp.map_path(path);
    assert_eq!(params.get("id").unwrap(), "42");
    assert_eq!(params.get("name").unwrap(), "cover.png");
}

#[test]
fn test_empty_substitution_round_trip() {
    let exp = Expression::from_template("/posts/{id}").unwrap();
    assert!(exp.is_match("/posts/"));
    let params = exp.map_path("/posts/");
    assert_eq!(params.get("id").unwrap(), "");
}

#[test]
fn test_missing_closing_brace_rejected() {
    assert_eq!(
        compile_err("/{foo"),
        TemplateError::MismatchedBraces
    );
    assert_eq!(
        compile_err("/a/{b}/{c"),
        TemplateError::MismatchedBraces
    );
}

#[test]
fn test_missing_opening_brace_rejected() {
    assert_eq!(
        compile_err("/foo}"),
        TemplateError::MismatchedBraces
    );
    assert_eq!(
        compile_err("/foo}/bar"),
        TemplateError::MismatchedBraces
    );
}

#[test]
fn test_anchoring_rejects_prefix_and_suffix() {
    // trailing unmatched text is rejected by end-anchoring, leading
    // text by start-anchoring
    let exp = Expression::from_template("/foo/{bar}").unwrap();
    assert!(!exp.is_match("/foo/bar/baz"));
    assert!(!exp.is_match("/baz/bar"));
    assert!(exp.is_match("/foo/bar"));
}

#[test]
fn test_empty_name_rejected() {
    assert_eq!(
        compile_err("/x/{}"),
        TemplateError::EmptySpec
    );
    assert_eq!(
        compile_err("/x/{:[0-9]+}"),
        TemplateError::EmptySpec
    );
}

#[test]
fn test_empty_pattern_rejected() {
    assert_eq!(
        compile_err("/x/{id:}"),
        TemplateError::EmptySpec
    );
}

#[test]
fn test_bad_custom_pattern_rejected() {
    assert_eq!(
        compile_err("/x/{id:[}"),
        TemplateError::BadPattern
    );
}

#[test]
fn test_custom_pattern_restricts_matches() {
    let exp = Expression::from_template("/n/{id:[0-9]+}").unwrap();
    assert!(exp.is_match("/n/123"));
    assert!(!exp.is_match("/n/abc"));
    let params = exp.map_path("/n/123");
    assert_eq!(params.get("id").unwrap(), "123");
}

#[test]
fn test_build_matcher_source() {
    let (src, names) = aqua_web::template::build_matcher("/foo/{bar}").unwrap();
    assert_eq!(src, "^/foo/([^/]*)$");
    assert_eq!(names.len(), 1);
    assert_eq!(names[0], "bar");

    let (src2, names2) = aqua_web::template::build_matcher("/a/{x:.*}/end").unwrap();
    assert_eq!(src2, "^/a/(.*)/end$");
    assert_eq!(names2[0], "x");
}
