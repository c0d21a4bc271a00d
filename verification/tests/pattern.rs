use unrest::pattern::{extract_named_path_segments, split_segments};
use unrest::{Params, PathPattern, PatternError, Segment};

fn strings(v: &[&str]) -> Vec<String> {
    v.iter().map(|s| s.to_string()).collect()
}

#[test]
fn a_path_is_split_at_its_slashes() {
    assert_eq!(split_segments(""), strings(&[""]));
    assert_eq!(split_segments("/"), strings(&["", ""]));
    assert_eq!(split_segments("/simple"), strings(&["", "simple"]));
    assert_eq!(split_segments("a/b/c"), strings(&["a", "b", "c"]));
    assert_eq!(split_segments("/a//b/"), strings(&["", "a", "", "b", ""]));
    assert_eq!(split_segments("/grüße/:x"), strings(&["", "grüße", ":x"]));
}

#[test]
fn splitting_agrees_with_std() {
    for s in ["", "/", "//", "/a", "a/", "/with_params/abc/something/true", "x", "/é/ü/"] {
        let expected: Vec<String> = s.split('/').map(|p| p.to_string()).collect();
        assert_eq!(split_segments(s), expected);
    }
}

#[test]
fn segments_of_a_pattern() {
    let p = PathPattern::parse("/with_params/:first/something/:second").unwrap();
    assert_eq!(p.len(), 5);
    assert_eq!(
        p.segments(),
        &vec![
            Segment::Literal("".to_string()),
            Segment::Literal("with_params".to_string()),
            Segment::Placeholder("first".to_string()),
            Segment::Literal("something".to_string()),
            Segment::Placeholder("second".to_string()),
        ]
    );
    assert_eq!(p.placeholder_names(), strings(&["first", "second"]));
}

#[test]
fn an_empty_pattern_is_refused() {
    assert_eq!(PathPattern::parse(""), Err(PatternError::Empty));
}

#[test]
fn a_repeated_placeholder_is_refused() {
    assert_eq!(
        PathPattern::parse("/:a/x/:a"),
        Err(PatternError::DuplicatePlaceholder("a".to_string()))
    );
    assert_eq!(
        PathPattern::parse("/:a/:b/:c/:b/:a"),
        Err(PatternError::DuplicatePlaceholder("b".to_string()))
    );
    assert_eq!(
        PathPattern::parse(":/:"),
        Err(PatternError::DuplicatePlaceholder("".to_string()))
    );
    assert!(PathPattern::parse("/a/a/:a").is_ok());
}

#[test]
fn a_colon_inside_a_segment_is_literal() {
    let p = PathPattern::parse("/a:b").unwrap();
    assert_eq!(
        p.segments(),
        &vec![Segment::Literal("".to_string()), Segment::Literal("a:b".to_string())]
    );
}

#[test]
fn root_pattern_matches_root_path() {
    let p = PathPattern::parse("/").unwrap();
    assert!(p.match_path("/").is_some());
    assert!(p.match_path("").is_none());
    assert!(p.match_path("//").is_none());
    assert!(p.match_path("/a").is_none());
}

#[test]
fn literals_match_exactly() {
    let p = PathPattern::parse("/simple").unwrap();
    assert_eq!(p.match_path("/simple").unwrap().len(), 0);
    assert!(p.match_path("/Simple").is_none());
    assert!(p.match_path("/simple/").is_none());
    assert!(p.match_path("simple").is_none());
    assert!(p.match_path("/simple/x").is_none());
    assert!(p.match_path("/simpl").is_none());
}

#[test]
fn placeholders_capture_their_segment() {
    let p = PathPattern::parse("/with_params/:first/something/:second").unwrap();
    let params = p.match_path("/with_params/abc/something/true").unwrap();
    assert_eq!(params.len(), 2);
    assert_eq!(params.find("first"), Some("abc"));
    assert_eq!(params.find("second"), Some("true"));
    assert_eq!(params.find("third"), None);
}

#[test]
fn a_placeholder_needs_a_segment_that_is_not_empty() {
    let p = PathPattern::parse("/a/:x/b").unwrap();
    assert!(p.match_path("/a//b").is_none());
    assert!(p.match_path("/a/ /b").is_some());
    let q = PathPattern::parse("/a/:x").unwrap();
    assert!(q.match_path("/a/").is_none());
    assert!(q.match_path("/a").is_none());
}

#[test]
fn segment_counts_must_agree() {
    let p = PathPattern::parse("/a/:x").unwrap();
    assert!(p.match_path("/a/1/2").is_none());
    assert!(p.match_path("/a/1/").is_none());
    assert!(p.match_path("/a").is_none());
    assert!(p.match_path("/a/1").is_some());
}

#[test]
fn matching_segments_directly() {
    let p = PathPattern::parse(":x/lit").unwrap();
    let got = p.match_segments(&strings(&["v", "lit"])).unwrap();
    assert_eq!(got.find("x"), Some("v"));
    assert!(p.match_segments(&strings(&["v", "other"])).is_none());
    assert!(p.match_segments(&strings(&["v"])).is_none());
}

#[test]
fn named_segments_of_a_pattern_text() {
    assert_eq!(
        extract_named_path_segments("/with_data/:yo/something/:man"),
        strings(&["yo", "man"])
    );
    assert_eq!(extract_named_path_segments("/simple"), Vec::<String>::new());
    assert_eq!(extract_named_path_segments(":a/:a"), strings(&["a", "a"]));
    assert_eq!(extract_named_path_segments(""), Vec::<String>::new());
}

#[test]
fn params_keep_the_first_value_of_a_name() {
    let mut p = Params::new();
    assert_eq!(p.len(), 0);
    assert_eq!(p.find("k"), None);
    p.insert("k".to_string(), "1".to_string());
    p.insert("j".to_string(), "2".to_string());
    p.insert("k".to_string(), "3".to_string());
    assert_eq!(p.len(), 3);
    assert_eq!(p.find("k"), Some("1"));
    assert_eq!(p.find("j"), Some("2"));
}
