use tackt::check_prefix;
use tackt::Descriptor;
use tackt::Error;
use tackt::Extracted;
use tackt::Extractor;
use tackt::Handle;
use tackt::Kind;
use tackt::Method;
use tackt::ParamSpec;
use tackt::Request;
use tackt::Router;
use tackt::Void;

fn route(spec: &str, params: &[(&str, Kind)]) -> Extractor {
    let desc = Descriptor::parse(spec).unwrap();
    let mut ps: Vec<ParamSpec> = Vec::new();
    for (name, kind) in params {
        ps.push(ParamSpec { name: (*name).to_string(), kind: *kind });
    }
    Extractor::compile(&desc, &ps).unwrap()
}

fn req(method: Method, path: &str) -> Request {
    Request::new(method, path)
}

#[test]
fn scenario_single_route() {
    let router = Router::new(route("GET: \"about\"", &[]), |_: Request, p: Extracted| {
        Ok::<usize, Error>(p.bindings.len())
    });
    let res = router.call(req(Method::Get, "/about"));
    assert_eq!(res, Ok(0));
    let res = router.call(req(Method::Post, "/about"));
    assert_eq!(res, Err(Error::Method));
    let res = router.call(req(Method::Get, "/abouts"));
    assert_eq!(res, Err(Error::Path));
}

#[test]
fn scenario_alternation() {
    let router = Router::new(route("\"x\"", &[]), |_: Request, _: Extracted| {
        Ok::<&'static str, Error>("A")
    })
        .route(route("\"y\"", &[]), |_: Request, _: Extracted| Ok::<&'static str, Error>("B"));
    let res = router.call(req(Method::Get, "/y"));
    assert_eq!(res, Ok("B"));
    let res = router.call(req(Method::Get, "/z"));
    assert_eq!(res, Err(Error::Path));
}

#[test]
fn scenario_overlap_first_added_wins() {
    let router = Router::new(route("\"x\"", &[]), |_: Request, _: Extracted| {
        Ok::<&'static str, Error>("first")
    })
        .route(
            route("\"x\"", &[]),
            |_: Request, _: Extracted| Ok::<&'static str, Error>("second"),
        );
    let res = router.call(req(Method::Get, "/x"));
    assert_eq!(res, Ok("first"));
}

#[test]
fn scenario_mount_boundary() {
    let base: Router<Void<Request, &'static str>> = Router::void();
    let inner = Router::new(route("GET: \"thing\"", &[]), |_: Request, _: Extracted| {
        Ok::<&'static str, Error>("thing")
    });
    let router = base.mount("/sub", inner);
    let res = router.call(req(Method::Get, "/sub/thing"));
    assert_eq!(res, Ok("thing"));
    let res = router.call(req(Method::Get, "/subthing"));
    assert_eq!(res, Err(Error::Path));
}

#[test]
fn or_tie_break() {
    let router = Router::new(route("GET: \"x\"", &[]), |_: Request, _: Extracted| {
        Ok::<&'static str, Error>("x")
    })
        .route(route("GET: \"y\"", &[]), |_: Request, _: Extracted| Ok::<&'static str, Error>("y"));
    // left fails with a path mismatch, right with a method mismatch: the
    // lower-ranked path mismatch wins
    let res = router.call(req(Method::Post, "/y"));
    assert_eq!(res, Err(Error::Path));
    let res = router.call(req(Method::Post, "/x"));
    assert_eq!(res, Err(Error::Path));
    let res = router.call(req(Method::Post, "/z"));
    assert_eq!(res, Err(Error::Path));
}

#[test]
fn mount_trailing_slash_trimmed() {
    let spots = ["/api", "/api/", "/api///"];
    let paths = ["/api/thing", "/apithing", "/api", "/other", "/api/thing/more"];
    let mut seen: Vec<Vec<Result<&'static str, Error>>> = Vec::new();
    for spot in spots {
        let base: Router<Void<Request, &'static str>> = Router::void();
        let inner = Router::new(route("\"thing\"", &[]), |_: Request, _: Extracted| {
            Ok::<&'static str, Error>("thing")
        });
        let router = base.mount(spot, inner);
        let mut outs: Vec<Result<&'static str, Error>> = Vec::new();
        for path in paths {
            outs.push(router.call(req(Method::Get, path)));
        }
        seen.push(outs);
    }
    assert_eq!(seen[0], seen[1]);
    assert_eq!(seen[0], seen[2]);
    assert_eq!(seen[0][0], Ok("thing"));
}

#[test]
fn prefix_validation() {
    assert_eq!(check_prefix(""), Err(Error::Prefix));
    assert_eq!(check_prefix("/"), Err(Error::Prefix));
    assert_eq!(check_prefix("///"), Err(Error::Prefix));
    assert_eq!(check_prefix("/a?b"), Err(Error::Prefix));
    assert_eq!(check_prefix("/a#b"), Err(Error::Prefix));
    assert_eq!(check_prefix("api"), Err(Error::Prefix));
    assert_eq!(check_prefix("/api"), Ok("/api".to_string()));
    assert_eq!(check_prefix("/api/"), Ok("/api".to_string()));
    assert_eq!(check_prefix("/api///"), Ok("/api".to_string()));
}

#[test]
fn middleware_short_circuits() {
    let inner = Router::new(route("", &[]), |_: Request, _: Extracted| {
        Ok::<&'static str, Error>("in")
    });
    let router = inner.with(|r: Request| {
        if r.header("pass").is_some() {
            Ok(r)
        } else {
            Err(Error::Prefix)
        }
    });
    let res = router.call(req(Method::Get, "/"));
    assert_eq!(res, Err(Error::Prefix));
    let res = router.call(req(Method::Get, "/").with_header("pass", "1"));
    assert_eq!(res, Ok("in"));
}

#[test]
fn void_matches_nothing() {
    let router: Router<Void<Request, &'static str>> = Router::void();
    assert_eq!(router.call(req(Method::Get, "/")), Err(Error::Path));
    assert_eq!(router.call(req(Method::Post, "/anything")), Err(Error::Path));
}

#[test]
fn error_order_and_message() {
    assert_eq!(Error::Path.min(Error::Method), Error::Path);
    assert_eq!(Error::Method.min(Error::Path), Error::Path);
    assert_eq!(Error::Method.min(Error::Prefix), Error::Method);
    assert_eq!(Error::Prefix.min(Error::Path), Error::Path);
    assert_eq!(Error::Prefix.min(Error::Prefix), Error::Prefix);
    assert_eq!(Error::Path.message(), "route path does not match");
    assert_eq!(Error::Method.message(), "route method does not match");
    assert_eq!(Error::Prefix.message(), "route prefix does not match");
}

#[test]
fn cloned_router_dispatches_alike() {
    let router = Router::new(route("GET: \"a\"", &[]), |_: Request, _: Extracted| {
        Ok::<&'static str, Error>("a")
    })
        .route(route("\"b\" / v", &[("v", Kind::Int)]), |_: Request, _: Extracted| {
            Ok::<&'static str, Error>("b")
        });
    let copy = router.clone();
    for (m, p) in [
        (Method::Get, "/a"),
        (Method::Post, "/a"),
        (Method::Get, "/b/3"),
        (Method::Get, "/b/x"),
        (Method::Get, "/c"),
    ] {
        assert_eq!(router.call(req(m, p)), copy.call(req(m, p)));
    }
}
