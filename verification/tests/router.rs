use unrest::{
    Error, Method, ParamSource, ParamSpec, ParamType, RouteDescriptor, RouteError, Router, TypeKey,
};

fn simple(method: Method, path: &str, tag: u32) -> RouteDescriptor<u32> {
    RouteDescriptor::new(method, path).handler(tag)
}

#[test]
fn a_new_router_resolves_nothing() {
    let router: Router<u32> = Router::new();
    assert_eq!(router.len(), 0);
    assert_eq!(router.resolve(&Method::Get, "/").err(), Some(Error::RouterError));
}

#[test]
fn a_registered_route_is_found_by_method_and_path() {
    let mut router = Router::new();
    router.mount("/", simple(Method::Get, "/simple", 1)).unwrap();
    router.mount("/", simple(Method::Post, "/simple", 2)).unwrap();
    let found = router.resolve(&Method::Get, "/simple").unwrap();
    assert_eq!(found.index, 0);
    assert_eq!(*found.route.handler(), 1);
    assert_eq!(found.route.method(), &Method::Get);
    assert_eq!(found.params.len(), 0);
    let found = router.resolve(&Method::Post, "/simple").unwrap();
    assert_eq!(found.index, 1);
    assert_eq!(*found.route.handler(), 2);
    assert_eq!(router.resolve(&Method::Put, "/simple").err(), Some(Error::RouterError));
    assert_eq!(router.resolve(&Method::Get, "/other").err(), Some(Error::RouterError));
}

#[test]
fn the_prefix_is_put_before_the_pattern() {
    let mut router = Router::new();
    router.mount("/api", simple(Method::Get, "/users", 1)).unwrap();
    router.mount("/", simple(Method::Get, "/users", 2)).unwrap();
    router.mount("", simple(Method::Get, "/plain", 3)).unwrap();
    assert_eq!(*router.resolve(&Method::Get, "/api/users").unwrap().route.handler(), 1);
    assert_eq!(*router.resolve(&Method::Get, "/users").unwrap().route.handler(), 2);
    assert_eq!(*router.resolve(&Method::Get, "/plain").unwrap().route.handler(), 3);
    assert!(router.resolve(&Method::Get, "//users").is_err());
    assert_eq!(router.route(0).unwrap().pattern().len(), 3);
    assert!(router.route(3).is_none());
}

#[test]
fn the_route_registered_first_wins() {
    let mut router = Router::new();
    router.mount("/", simple(Method::Get, "/posts/:id", 1).path_param("id", ParamType::Text))
        .unwrap();
    router.mount("/", simple(Method::Get, "/posts/new", 2)).unwrap();
    router.mount("/", simple(Method::Get, "/posts/:slug", 3).path_param("slug", ParamType::Text))
        .unwrap();
    let found = router.resolve(&Method::Get, "/posts/new").unwrap();
    assert_eq!(found.index, 0);
    assert_eq!(found.params.find("id"), Some("new"));
    let found = router.resolve(&Method::Get, "/posts/7").unwrap();
    assert_eq!(found.index, 0);

    let mut other = Router::new();
    other.mount("/", simple(Method::Get, "/posts/new", 2)).unwrap();
    other.mount("/", simple(Method::Get, "/posts/:id", 1).path_param("id", ParamType::Text))
        .unwrap();
    assert_eq!(other.resolve(&Method::Get, "/posts/new").unwrap().index, 0);
    assert_eq!(other.resolve(&Method::Get, "/posts/7").unwrap().index, 1);
}

#[test]
fn a_path_with_another_number_of_segments_is_not_found() {
    let mut router = Router::new();
    router.mount("/", simple(Method::Get, "/a/:b", 1).path_param("b", ParamType::Text)).unwrap();
    assert!(router.resolve(&Method::Get, "/a").is_err());
    assert!(router.resolve(&Method::Get, "/a/b/c").is_err());
    assert!(router.resolve(&Method::Get, "/a/b/").is_err());
    assert!(router.resolve(&Method::Get, "/a/b").is_ok());
}

#[test]
fn resolving_twice_gives_the_same() {
    let mut router = Router::new();
    router.mount("/", simple(Method::Get, "/a/:b", 1).path_param("b", ParamType::U32)).unwrap();
    router.mount("/", simple(Method::Get, "/a/x", 2)).unwrap();
    let first = router.resolve(&Method::Get, "/a/x").unwrap();
    let second = router.resolve(&Method::Get, "/a/x").unwrap();
    assert_eq!(first.index, second.index);
    assert_eq!(first.params, second.params);
    assert!(std::ptr::eq(first.route, second.route));
    assert_eq!(
        router.resolve(&Method::Get, "/none").err(),
        router.resolve(&Method::Get, "/none").err()
    );
}

#[test]
fn get_registers_for_get_whatever_the_descriptor_says() {
    let mut router = Router::new();
    router.get("/here", simple(Method::Post, "/elsewhere", 9)).unwrap();
    assert_eq!(*router.resolve(&Method::Get, "/here").unwrap().route.handler(), 9);
    assert!(router.resolve(&Method::Post, "/here").is_err());
    assert!(router.resolve(&Method::Get, "/elsewhere").is_err());
    assert!(router.resolve(&Method::Post, "/elsewhere").is_err());
}

#[test]
fn an_empty_pattern_is_not_registered() {
    let mut router = Router::new();
    assert_eq!(router.mount("/", simple(Method::Get, "", 1)), Err(RouteError::EmptyPattern));
    assert_eq!(router.mount("", simple(Method::Get, "", 1)), Err(RouteError::EmptyPattern));
    assert_eq!(router.get("", simple(Method::Get, "/x", 1)), Err(RouteError::EmptyPattern));
    assert_eq!(router.len(), 0);
    assert!(router.mount("/x", simple(Method::Get, "", 1)).is_ok());
    assert_eq!(router.len(), 1);
}

#[test]
fn a_repeated_placeholder_is_not_registered() {
    let mut router = Router::new();
    let d = simple(Method::Get, "/:a/:a", 1).path_param("a", ParamType::Text);
    assert_eq!(
        router.mount("/", d),
        Err(RouteError::DuplicatePlaceholder("a".to_string()))
    );
    let d = simple(Method::Get, "/:a", 1).path_param("a", ParamType::Text);
    assert_eq!(
        router.mount("/:a", d),
        Err(RouteError::DuplicatePlaceholder("a".to_string()))
    );
    assert_eq!(router.len(), 0);
}

#[test]
fn a_placeholder_without_a_parameter_is_not_registered() {
    let mut router = Router::new();
    assert_eq!(
        router.mount("/", simple(Method::Get, "/:a/:b", 1).path_param("b", ParamType::Text)),
        Err(RouteError::MissingParam("a".to_string()))
    );
    assert_eq!(
        router.mount("/", simple(Method::Get, "/:a/:b", 1).path_param("a", ParamType::Text)),
        Err(RouteError::MissingParam("b".to_string()))
    );
    assert_eq!(
        router.mount("/", simple(Method::Get, "/:a/:b", 1)),
        Err(RouteError::MissingParam("a".to_string()))
    );
    assert_eq!(
        router.mount("/", simple(Method::Get, "/:a", 1).body("a")),
        Err(RouteError::MissingParam("a".to_string()))
    );
    assert_eq!(router.len(), 0);
}

#[test]
fn a_parameter_without_a_placeholder_is_not_registered() {
    let mut router = Router::new();
    let d = simple(Method::Get, "/:a", 1)
        .path_param("x", ParamType::Text)
        .path_param("a", ParamType::Text)
        .path_param("y", ParamType::Text);
    assert_eq!(router.mount("/", d), Err(RouteError::UnknownParam("x".to_string())));
    let d = simple(Method::Get, "/a", 1).path_param("a", ParamType::Text);
    assert_eq!(router.mount("/", d), Err(RouteError::UnknownParam("a".to_string())));
    assert_eq!(router.len(), 0);
}

#[test]
fn a_second_body_is_not_registered() {
    let mut router = Router::new();
    let d = simple(Method::Post, "/a", 1).body("one").state::<u32>("n", "u32").body("two");
    assert_eq!(router.mount("/", d), Err(RouteError::DuplicateBody));
    assert_eq!(router.len(), 0);
    let d = simple(Method::Post, "/a", 1).body("one").state::<u32>("n", "u32");
    assert_eq!(router.mount("/", d), Ok(()));
}

#[test]
fn the_rule_broken_first_decides_the_error() {
    let mut router = Router::new();
    let d = simple(Method::Get, "/:a/:a/:b", 1).path_param("zz", ParamType::Text).body("x").body("y");
    assert_eq!(
        router.mount("/", d),
        Err(RouteError::DuplicatePlaceholder("a".to_string()))
    );
    let d = simple(Method::Get, "/:a/:b", 1).path_param("zz", ParamType::Text).body("x").body("y");
    assert_eq!(router.mount("/", d), Err(RouteError::MissingParam("a".to_string())));
    let d = simple(Method::Get, "/:a", 1)
        .path_param("zz", ParamType::Text)
        .path_param("a", ParamType::Text)
        .body("x")
        .body("y");
    assert_eq!(router.mount("/", d), Err(RouteError::UnknownParam("zz".to_string())));
}

#[test]
fn a_descriptor_keeps_what_was_declared() {
    let d = RouteDescriptor::new(Method::Post, "/with_data/:yo/something/:man")
        .path_param("yo", ParamType::Boolean)
        .path_param("man", ParamType::U32)
        .body("input")
        .state::<String>("somestate", "String")
        .handler("h");
    assert_eq!(d.method(), &Method::Post);
    assert_eq!(d.path(), "/with_data/:yo/something/:man");
    let params = d.params();
    assert_eq!(params.len(), 4);
    assert_eq!(
        params[0],
        ParamSpec::PathSegment { name: "yo".to_string(), target: ParamType::Boolean }
    );
    assert_eq!(
        params[1],
        ParamSpec::PathSegment { name: "man".to_string(), target: ParamType::U32 }
    );
    assert_eq!(params[2], ParamSpec::Body { name: "input".to_string() });
    assert_eq!(
        params[3],
        ParamSpec::State {
            name: "somestate".to_string(),
            key: TypeKey::of::<String>(),
            label: "String".to_string(),
        }
    );
    assert_eq!(params[0].name(), "yo");
    assert_eq!(params[0].source(), ParamSource::PathSegment);
    assert_eq!(params[2].name(), "input");
    assert_eq!(params[2].source(), ParamSource::Body);
    assert_eq!(params[3].name(), "somestate");
    assert_eq!(params[3].source(), ParamSource::State);
    let (method, path, params, handler) = d.into_parts();
    assert_eq!((method, path.as_str(), params.len(), handler), (Method::Post, "/with_data/:yo/something/:man", 4, "h"));
}

#[test]
fn method_names() {
    assert_eq!(Method::parse("get"), Some(Method::Get));
    assert_eq!(Method::parse("post"), Some(Method::Post));
    assert_eq!(Method::parse("put"), Some(Method::Put));
    assert_eq!(Method::parse("delete"), Some(Method::Delete));
    assert_eq!(Method::parse("GET"), None);
    assert_eq!(Method::parse("patch"), None);
    assert_eq!(Method::parse(""), None);
    assert_eq!(Method::Get.as_name_str(), "Get");
    assert_eq!(Method::Post.as_name_str(), "Post");
    assert_eq!(Method::Put.as_name_str(), "Put");
    assert_eq!(Method::Delete.as_name_str(), "Delete");
    assert_eq!(Method::Options.as_name_str(), "Options");
    assert_eq!(Method::Head.as_name_str(), "Head");
    assert_eq!(Method::Trace.as_name_str(), "Trace");
    assert_eq!(Method::Connect.as_name_str(), "Connect");
    assert_eq!(Method::Patch.as_name_str(), "Patch");
    assert_eq!(Method::Extension("PURGE".to_string()).as_name_str(), "PURGE");
}

#[test]
fn methods_are_told_apart() {
    let all = vec![
        Method::Options,
        Method::Get,
        Method::Post,
        Method::Put,
        Method::Delete,
        Method::Head,
        Method::Trace,
        Method::Connect,
        Method::Patch,
        Method::Extension("PURGE".to_string()),
        Method::Extension("purge".to_string()),
    ];
    for (i, a) in all.iter().enumerate() {
        for (j, b) in all.iter().enumerate() {
            assert_eq!(a.same(b), i == j);
            assert_eq!(a.same(b), a == b);
        }
    }
    assert!(Method::Extension("X".to_string()).same(&Method::Extension("X".to_string())));
}

#[test]
fn routes_can_be_registered_for_an_extension_method() {
    let purge = Method::Extension("PURGE".to_string());
    let mut router = Router::new();
    router.mount("/", simple(purge.clone(), "/cache", 1)).unwrap();
    router.mount("/", simple(Method::Get, "/cache", 2)).unwrap();
    assert_eq!(*router.resolve(&purge, "/cache").unwrap().route.handler(), 1);
    assert_eq!(*router.resolve(&Method::Get, "/cache").unwrap().route.handler(), 2);
    assert!(router.resolve(&Method::Extension("BAN".to_string()), "/cache").is_err());
}
