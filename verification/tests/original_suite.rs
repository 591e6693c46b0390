use tackt::Descriptor;
use tackt::Error;
use tackt::Extracted;
use tackt::Extractor;
use tackt::Func;
use tackt::Handle;
use tackt::Kind;
use tackt::Method;
use tackt::ParamSpec;
use tackt::RemovePrefix;
use tackt::Request;
use tackt::Router;
use tackt::Value;

fn route(spec: &str, params: &[(&str, Kind)]) -> Extractor {
    let desc = Descriptor::parse(spec).unwrap();
    let mut ps: Vec<ParamSpec> = Vec::new();
    for (name, kind) in params {
        ps.push(ParamSpec { name: (*name).to_string(), kind: *kind });
    }
    Extractor::compile(&desc, &ps).unwrap()
}

fn int_of(p: &Extracted, name: &str) -> i64 {
    match p.get(name) {
        Some(Value::Int(i)) => *i,
        _ => panic!("no integer bound under {}", name),
    }
}

fn str_of(p: &Extracted, name: &str) -> String {
    match p.get(name) {
        Some(Value::Str(s)) => s.clone(),
        _ => panic!("no string bound under {}", name),
    }
}

#[test]
fn func_test() {
    let func = Func::new(route("", &[]), |_: Request, param: Extracted| {
        Ok::<Extracted, Error>(param)
    });
    let res = func.call(Request::new(Method::Get, "/"));
    assert!(matches!(res, Ok(_)));
    let res = func.call(Request::new(Method::Get, "/somewhere"));
    assert!(matches!(res, Err(Error::Path)));
}

#[test]
fn mount_test() {
    let req = |path: &str| Request::new(Method::Get, path);

    let root = Router::new(route("GET", &[]), |_: Request, _: Extracted| {
        Ok::<&'static str, Error>("root")
    })
        .route(
            route("GET: \"other\"", &[]),
            |_: Request, _: Extracted| Ok::<&'static str, Error>("other"),
        );
    let r1 = Router::new(route("GET: \"route1\"", &[]), |_: Request, _: Extracted| {
        Ok::<&'static str, Error>("route1")
    });
    let r2 = Router::new(route("GET: \"route2\"", &[]), |_: Request, _: Extracted| {
        Ok::<&'static str, Error>("route2")
    });
    let router = root.mount("/r1", r1).mount("/r2", r2);

    let res = router.call(req("/"));
    assert_eq!(res, Ok("root"));

    let res = router.call(req("/other"));
    assert_eq!(res, Ok("other"));

    let res = router.call(req("/r1/route1"));
    assert_eq!(res, Ok("route1"));

    let res = router.call(req("/r2/route2"));
    assert_eq!(res, Ok("route2"));
}

#[test]
fn or_test() {
    let or = tackt::Or::new(
        Func::new(route("\"left\" / x", &[("x", Kind::Int)]), |_: Request, p: Extracted| {
            Ok::<i64, Error>(int_of(&p, "x"))
        }),
        Func::new(route("\"right\" / y", &[("y", Kind::Int)]), |_: Request, p: Extracted| {
            Ok::<i64, Error>(int_of(&p, "y"))
        }),
    );

    let res = or.call(Request::new(Method::Get, "/"));
    assert!(matches!(res, Err(Error::Path)));
    let res = or.call(Request::new(Method::Get, "/left"));
    assert!(matches!(res, Err(Error::Path)));
    let res = or.call(Request::new(Method::Get, "/right"));
    assert!(matches!(res, Err(Error::Path)));
    let res = or.call(Request::new(Method::Get, "/left/1"));
    assert!(matches!(res, Ok(1)));
    let res = or.call(Request::new(Method::Get, "/right/2"));
    assert!(matches!(res, Ok(2)));
}

#[test]
fn request_test() {
    let val = "/a/b".to_string();
    let val = val.remove_prefix("/a").unwrap();
    assert_eq!(val, "/b");

    let val = Request::new(Method::Get, "/a/b");
    let val = val.remove_prefix("/a").unwrap();
    assert_eq!(val.path, "/b");
}

#[test]
fn macros_test() {
    let router = Router::new(route("", &[]), |_: Request, _: Extracted| {
        Ok::<String, Error>("home".to_string())
    })
        .route(
            route("GET, POST: \"login\"", &[]),
            |_: Request, _: Extracted| Ok::<String, Error>("login".to_string()),
        )
        .route(
            route("GET: \"user\" / id", &[("id", Kind::Int)]),
            |_: Request, p: Extracted| Ok::<String, Error>(format!("user {}", int_of(&p, "id"))),
        )
        .route(
            route(
                "GET: \"content\" / id / name / path*",
                &[("id", Kind::Int), ("name", Kind::Str), ("path", Kind::Str)],
            ),
            |_: Request, p: Extracted| {
                Ok::<String, Error>(
                    format!(
                        "content {} {} {}",
                        int_of(&p, "id"),
                        str_of(&p, "name"),
                        str_of(&p, "path"),
                    ),
                )
            },
        );

    let exec = |method: Method, path: &str| router.call(Request::new(method, path));

    assert_eq!(exec(Method::Get, "/").unwrap(), "home");
    assert_eq!(exec(Method::Get, "/login").unwrap(), "login");
    assert_eq!(exec(Method::Post, "/login").unwrap(), "login");
    assert_eq!(exec(Method::Get, "/user/1").unwrap(), "user 1");
    assert_eq!(
        exec(Method::Get, "/content/1/name/path/to/file").unwrap(),
        "content 1 name path/to/file"
    );
}

#[derive(Clone, Copy, Debug, PartialEq, Eq, PartialOrd, Ord)]
enum SuiteError {
    Routing(Error),
    Unauthorized,
}

impl From<Error> for SuiteError {
    fn from(err: Error) -> Self {
        SuiteError::Routing(err)
    }
}

#[test]
fn test_test() {
    let router = Router::new(route("", &[]), |_: Request, _: Extracted| {
        Ok::<String, SuiteError>("home".to_string())
    })
        .route(
            route("GET, POST: \"login\"", &[]),
            |_: Request, _: Extracted| Ok::<String, SuiteError>("login".to_string()),
        )
        .route(
            route("GET: \"user\" / id", &[("id", Kind::Int)]),
            |_: Request, p: Extracted| {
                Ok::<String, SuiteError>(format!("user {}", int_of(&p, "id")))
            },
        )
        .route(
            route(
                "GET: \"content\" / id / name / path*",
                &[("id", Kind::Int), ("name", Kind::Str), ("path", Kind::Str)],
            ),
            |_: Request, p: Extracted| {
                Ok::<String, SuiteError>(
                    format!(
                        "content {} {} {}",
                        int_of(&p, "id"),
                        str_of(&p, "name"),
                        str_of(&p, "path"),
                    ),
                )
            },
        )
        .mount(
            "/protected",
            Router::new(route("", &[]), |req: Request, _: Extracted| {
                Ok::<String, SuiteError>(req.header("user").unwrap().clone())
            })
                .with(|req: Request| {
                    if req.header("user").is_some() {
                        Ok(req)
                    } else {
                        Err(SuiteError::Unauthorized)
                    }
                }),
        );

    let exec = |method: Method, path: &str| router.call(Request::new(method, path));

    assert_eq!(exec(Method::Get, "/"), Ok("home".to_string()));
    assert_eq!(exec(Method::Get, "/login"), Ok("login".to_string()));
    assert_eq!(exec(Method::Post, "/login"), Ok("login".to_string()));
    assert_eq!(exec(Method::Get, "/user/1"), Ok("user 1".to_string()));
    assert_eq!(
        exec(Method::Get, "/content/1/name/path/to/file"),
        Ok("content 1 name path/to/file".to_string())
    );
    assert_eq!(exec(Method::Get, "/protected"), Err(SuiteError::Unauthorized));

    let req = Request::new(Method::Get, "/protected/").with_header("user", "someone");
    assert_eq!(router.call(req), Ok("someone".to_string()));
}

#[test]
fn ready_outcome() {
    let out: tackt::Maybe<(), Result<i32, Error>> = tackt::Maybe::ready(Ok(3));
    assert!(matches!(out, tackt::Maybe::Ready(Some(Ok(3)))));
    let picked: tackt::Either<i32, bool> = tackt::Either::Left(7);
    assert!(matches!(picked, tackt::Either::Left(7)));
    let make = tackt::Make::<i32, Request>::new(5);
    assert_eq!(make.inner, 5);
}
