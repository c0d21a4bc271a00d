use unrest::{Method, ParamType, RouteDescriptor, Router};

/// Registers the patterns both here and with `route_recognizer`, each
/// with one text parameter per placeholder.
fn both(patterns: &[&str]) -> (Router<usize>, route_recognizer::Router<usize>) {
    let mut ours = Router::new();
    let mut theirs = route_recognizer::Router::new();
    for (i, pattern) in patterns.iter().enumerate() {
        let mut descriptor = RouteDescriptor::new(Method::Get, pattern);
        for name in unrest::pattern::extract_named_path_segments(pattern) {
            descriptor = descriptor.path_param(&name, ParamType::Text);
        }
        ours.mount("/", descriptor.handler(i)).unwrap();
        theirs.add(pattern, i);
    }
    (ours, theirs)
}

#[test]
fn patterns_that_cannot_overlap_resolve_as_route_recognizer_does() {
    let patterns = [
        "/simple",
        "/simple_nested",
        "/with_params/:first/something/:second",
        "/with_data/:yo/something/:man",
        "/with_state",
        "/posts/:post_id/comments/:id",
        "/posts/:post_id/comments",
        "/posts",
        "/comments/:id",
    ];
    let paths = [
        "/simple",
        "/simple/",
        "/simple_nested",
        "/with_params/abc/something/true",
        "/with_params/abc/something",
        "/with_params//something/true",
        "/with_data/false/something/7",
        "/with_state",
        "/posts/12/comments/100",
        "/posts/12/comments",
        "/posts",
        "/posts/12",
        "/comments/9",
        "/comments",
        "/nowhere",
        "/",
    ];
    let (ours, theirs) = both(&patterns);
    for path in paths {
        let mine = ours.resolve(&Method::Get, path).ok();
        let other = theirs.recognize(path).ok();
        assert_eq!(mine.is_some(), other.is_some(), "{}", path);
        if let (Some(mine), Some(other)) = (mine, other) {
            assert_eq!(*mine.route.handler(), *other.handler, "{}", path);
            assert_eq!(mine.params.len(), other.params.iter().count(), "{}", path);
            for (name, value) in other.params.iter() {
                assert_eq!(mine.params.find(name), Some(value), "{}", path);
            }
        }
    }
}

#[test]
fn where_patterns_overlap_the_first_registered_wins_here() {
    let (ours, theirs) = both(&["/posts/:id", "/posts/new"]);
    let mine = ours.resolve(&Method::Get, "/posts/new").unwrap();
    assert_eq!(*mine.route.handler(), 0);
    assert_eq!(mine.params.find("id"), Some("new"));
    // `route_recognizer` prefers the pattern with fewer placeholders.
    assert_eq!(*theirs.recognize("/posts/new").unwrap().handler, 1);
}
