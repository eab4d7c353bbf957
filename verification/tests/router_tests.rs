use std::sync::Arc;

use router::add_app;
use router::assets::{asset_route, AssetTable};
use router::attrs::{AttrError, AttrToken, RouteInfo};
use router::body::Body;
use router::codegen::{
    check_router, derive_error_message, get_inner_type, variant_paths, AttrArg, DeriveError,
    GenericArgKind, InnerTypeError, PathArgs, RouterDecl, TypeShape, VariantDecl,
};
use router::fetch::{fetch_headers, fetch_method, fetch_url, settle, FetchRequest};
use router::naming::{endpoint_method, endpoint_struct_name, route_path};
use router::routing::{
    after_auth, dispatch, failed, handler_response, not_found, page_response, request_path, unauthorized,
    Dispatch, EndpointInfo, EndpointStep, HttpMethod,
};
use router::sum_app;
use router::text::{push_decimal, strip};

fn ident(s: &str) -> AttrToken {
    AttrToken::Ident(s.to_string())
}

fn lit(s: &str) -> AttrToken {
    AttrToken::Literal(s.to_string())
}

fn punct(c: char) -> AttrToken {
    AttrToken::Punct(c)
}

fn body_text(b: Body) -> String {
    String::from_utf8(b.full()).unwrap()
}

#[test]
fn strip_removes_one_pair_of_quotes() {
    assert_eq!(strip("\"abc\""), "abc");
    assert_eq!(strip("\"\"abc\"\""), "\"abc\"");
    assert_eq!(strip("abc"), "abc");
    assert_eq!(strip("\"abc"), "\"abc");
    assert_eq!(strip("\""), "\"");
    assert_eq!(strip("\"\""), "");
}

#[test]
fn decimal_notation() {
    let mut s = String::from("x=");
    push_decimal(&mut s, -9223372036854775808);
    assert_eq!(s, "x=-9223372036854775808");
    let mut s = String::new();
    push_decimal(&mut s, 0);
    push_decimal(&mut s, 1234);
    assert_eq!(s, "01234");
}

#[test]
fn parse_idempotent_and_auth() {
    let tokens = vec![ident("idempotent"), punct(','), ident("auth"), punct('='), ident("NOAUTH")];
    assert!(RouteInfo::can_parse(&tokens));
    let info = RouteInfo::parse(&tokens).unwrap();
    assert!(info.is_idempotent);
    assert_eq!(info.auth, "NOAUTH");
}

#[test]
fn parse_bare_key_is_true() {
    let bare = vec![ident("idempotent"), punct(','), ident("auth"), punct('='), ident("f")];
    let explicit = vec![
        ident("idempotent"),
        punct('='),
        ident("true"),
        punct(','),
        ident("auth"),
        punct('='),
        ident("f"),
    ];
    let a = RouteInfo::parse(&bare).unwrap();
    let b = RouteInfo::parse(&explicit).unwrap();
    assert_eq!(a.is_idempotent, b.is_idempotent);
    assert_eq!(a.auth, b.auth);
}

#[test]
fn parse_defaults_and_paths() {
    let tokens = vec![
        ident("auth"),
        punct('='),
        ident("crate"),
        punct(':'),
        punct(':'),
        ident("auth"),
        punct(':'),
        punct(':'),
        ident("check"),
        punct(','),
    ];
    let info = RouteInfo::parse(&tokens).unwrap();
    assert!(!info.is_idempotent);
    assert_eq!(info.auth, "crate::auth::check");
}

#[test]
fn parse_literal_values_and_override() {
    let tokens = vec![
        ident("auth"),
        punct('='),
        lit("\"first\""),
        punct(','),
        ident("idempotent"),
        punct('='),
        ident("false"),
        punct(','),
        ident("auth"),
        punct('='),
        lit("\"second\""),
        punct(','),
        ident("path"),
        punct('='),
        lit("\"/sum\""),
    ];
    let info = RouteInfo::parse(&tokens).unwrap();
    assert!(!info.is_idempotent);
    assert_eq!(info.auth, "second");
}

#[test]
fn parse_errors() {
    let missing = vec![ident("path"), punct('='), lit("\"/sum\"")];
    assert_eq!(RouteInfo::parse(&missing).err(), Some(AttrError::MissingAuth));
    assert_eq!(AttrError::MissingAuth.message(), "No auth handler provided");

    let bad = vec![ident("auth"), punct('='), ident("f"), punct(','), ident("idempotent"), punct('='), ident("maybe")];
    let e = RouteInfo::parse(&bad).err().unwrap();
    assert_eq!(e, AttrError::InvalidIdempotent { start: 4, end: 7 });
    assert_eq!(e.message(), "Attribute 'idempotent' must be a valid boolean");

    let many = vec![ident("a"), ident("b"), ident("c"), punct(','), ident("auth")];
    let e = RouteInfo::parse(&many).err().unwrap();
    assert_eq!(e, AttrError::TooManyValues { start: 0, end: 4 });
    assert_eq!(
        e.message(),
        "sAttributes should either have a single value (idempotent = true), or be present to indicate a value of 'true'."
    );

    let mark = vec![ident("auth"), punct('#')];
    let e = RouteInfo::parse(&mark).err().unwrap();
    assert_eq!(e, AttrError::UnexpectedPunct { mark: '#', at: 1 });
    assert_eq!(e.message(), "Unexpected punctuation mark: #");

    let group = vec![ident("auth"), punct('='), AttrToken::Group];
    let e = RouteInfo::parse(&group).err().unwrap();
    assert_eq!(e, AttrError::UnexpectedToken { at: 2 });
    assert_eq!(e.message(), "I have no idea what this guy is doing here");
}

#[test]
fn parse_stuck_on_leading_separator() {
    let tokens = vec![punct(':'), punct(':'), ident("auth")];
    assert!(!RouteInfo::can_parse(&tokens));
    let tokens = vec![ident("auth"), punct('='), ident("f"), punct(','), lit("\":x\"")];
    assert!(!RouteInfo::can_parse(&tokens));
    let tokens = vec![punct('#'), punct(':')];
    assert!(RouteInfo::can_parse(&tokens));
}

#[test]
fn request_paths() {
    assert_eq!(request_path("/sum"), "sum");
    assert_eq!(request_path("sum"), "sum");
    assert_eq!(request_path("//x"), "/x");
    assert_eq!(request_path("/"), "");
}

#[test]
fn dispatch_by_method_and_path() {
    let eps = sum_app::Router::endpoints();
    assert_eq!(dispatch(&HttpMethod::Get, "sum", &eps), Dispatch::Page);
    assert_eq!(dispatch(&HttpMethod::Put, "sum", &eps), Dispatch::Call(0));
    assert_eq!(dispatch(&HttpMethod::Delete, "sum", &eps), Dispatch::Call(0));
    assert_eq!(dispatch(&HttpMethod::Post, "sum", &eps), Dispatch::NotFound);
    assert_eq!(dispatch(&HttpMethod::Put, "other", &eps), Dispatch::NotFound);
    let eps = add_app::Router::endpoints();
    assert_eq!(dispatch(&HttpMethod::Post, "add", &eps), Dispatch::Call(0));
    assert_eq!(dispatch(&HttpMethod::Patch, "add", &eps), Dispatch::Call(0));
    assert_eq!(dispatch(&HttpMethod::Put, "add", &eps), Dispatch::NotFound);
    assert_eq!(dispatch(&HttpMethod::Extension("FOO".to_string()), "add", &eps), Dispatch::Call(0));
}

#[test]
fn dispatch_first_match_wins() {
    let eps = vec![
        EndpointInfo { path: "a".to_string(), is_idempotent: false, takes_unit: true },
        EndpointInfo { path: "a".to_string(), is_idempotent: true, takes_unit: true },
        EndpointInfo { path: "a".to_string(), is_idempotent: true, takes_unit: false },
    ];
    assert_eq!(dispatch(&HttpMethod::Put, "a", &eps), Dispatch::Call(1));
    assert_eq!(dispatch(&HttpMethod::Post, "a", &eps), Dispatch::Call(0));
}

#[test]
fn method_idempotence() {
    assert!(HttpMethod::Get.is_idempotent());
    assert!(HttpMethod::Head.is_idempotent());
    assert!(HttpMethod::Options.is_idempotent());
    assert!(HttpMethod::Trace.is_idempotent());
    assert!(HttpMethod::Query.is_idempotent());
    assert!(HttpMethod::Put.is_idempotent());
    assert!(HttpMethod::Delete.is_idempotent());
    assert!(!HttpMethod::Post.is_idempotent());
    assert!(!HttpMethod::Patch.is_idempotent());
    assert!(!HttpMethod::Connect.is_idempotent());
    assert!(!HttpMethod::Extension("X".to_string()).is_idempotent());
}

#[test]
fn pages_and_assets() {
    let mut table = AssetTable::new();
    table.insert_file("css/site.css".to_string(), b"body{}".to_vec());
    table.insert_file("README".to_string(), b"hi".to_vec());
    let r = page_response("css/site.css", &table, sum_app::generate_html());
    assert_eq!(r.status, 200);
    assert_eq!(r.content_type.as_deref(), Some("text/css"));
    assert_eq!(r.body.full(), b"body{}".to_vec());
    let r = page_response("README", &table, sum_app::generate_html());
    assert_eq!(r.content_type.as_deref(), Some("text/plain"));
    let r = page_response("missing", &table, sum_app::generate_html());
    assert_eq!(r.status, 200);
    assert_eq!(r.content_type.as_deref(), Some("text/html"));
    assert_eq!(body_text(r.body), "<body>This is a valid* HTML file</body>");
}

#[test]
fn asset_table_read_after_write() {
    let mut table = AssetTable::new();
    assert!(table.get("a").is_none());
    table.insert("a".to_string(), "text/x".to_string(), vec![1]);
    table.insert("b".to_string(), "text/y".to_string(), vec![2]);
    table.insert("a".to_string(), "text/z".to_string(), vec![3]);
    let a = table.get("a").unwrap();
    assert_eq!(a.mime, "text/z");
    assert_eq!(a.bytes, vec![3]);
    let b = table.get("b").unwrap();
    assert_eq!(b.mime, "text/y");
    assert_eq!(b.bytes, vec![2]);
}

#[test]
fn asset_routes() {
    assert_eq!(asset_route("assets/css/a.css", "assets"), Some("css/a.css".to_string()));
    assert_eq!(asset_route("assets", "assets"), None);
    assert_eq!(asset_route("assets/", "assets"), Some(String::new()));
    assert_eq!(asset_route("other/a.css", "assets"), None);
    assert_eq!(asset_route("assets//a", "assets/"), Some("a".to_string()));
}

#[test]
fn fixed_responses() {
    let r = not_found();
    assert_eq!(r.status, 404);
    assert!(r.content_type.is_none());
    assert!(r.body.full().is_empty());
    let r = unauthorized();
    assert_eq!(r.status, 401);
    assert_eq!(
        body_text(r.body),
        "You aren't authorized to access this endpoint. If you believe this is a mistake, talk to your RMHedge Contact"
    );
    let r = failed();
    assert_eq!(r.status, 500);
    assert_eq!(body_text(r.body), "Any { .. }");
    let r = handler_response(Ok("7".to_string()));
    assert_eq!(r.status, 200);
    assert_eq!(body_text(r.body), "7");
    let r = handler_response(Err("bad".to_string()));
    assert_eq!(r.status, 400);
    assert_eq!(body_text(r.body), "bad");
}

#[test]
fn bodies() {
    assert!(Body::default().full().is_empty());
    assert_eq!(Body::from_string("héllo".to_string()).full(), "héllo".as_bytes().to_vec());
    assert_eq!(Body::from_slice(&[0, 255]).full(), vec![0, 255]);
}

#[test]
fn add_checks_overflow() {
    assert_eq!(add_app::add((100, 27)).unwrap(), 127);
    assert_eq!(add_app::add((-100, -28)).unwrap(), -128);
    let e = add_app::add((100, 28)).err().unwrap();
    assert_eq!(e, add_app::AddError { lhs: 100, rhs: 28 });
    assert_eq!(e.message(), "Failed to add 100 & 28");
    let e = add_app::add((-128, -1)).err().unwrap();
    assert_eq!(e.message(), "Failed to add -128 & -1");
    assert!(!add_app::EndpointAdd::is_idempotent());
}

#[test]
fn serve_add_requests() {
    let r = add_app::serve_add(b"[1,2]");
    assert_eq!(r.status, 200);
    assert_eq!(body_text(r.body), "3");
    let r = add_app::serve_add(b" [ -5 , 2 ] ");
    assert_eq!(r.status, 200);
    assert_eq!(body_text(r.body), "-3");
    let r = add_app::serve_add(b"[100,100]");
    assert_eq!(r.status, 400);
    assert_eq!(body_text(r.body), "Failed to add 100 & 100");
    let r = add_app::serve_add(b"[1000,1]");
    assert_eq!(r.status, 500);
    let r = add_app::serve_add(b"nope");
    assert_eq!(r.status, 500);
    assert_eq!(body_text(r.body), "Any { .. }");
}

#[test]
fn serve_sum_requests() {
    assert_eq!(sum_app::add((2, 3)).unwrap(), 5);
    assert!(sum_app::EndpointAdd::is_idempotent());
    let r = sum_app::serve_sum(b"[2147483646,1]");
    assert_eq!(r.status, 200);
    assert_eq!(body_text(r.body), "2147483647");
    let r = sum_app::serve_sum(b"[2147483647,1]");
    assert_eq!(r.status, 500);
    let r = sum_app::serve_sum(&[0xff, 0xfe]);
    assert_eq!(r.status, 500);
    let r = sum_app::respond_sum(Some((-4, 1)));
    assert_eq!(body_text(r.body), "-3");
}

#[test]
fn router_endpoint_paths() {
    let eps = sum_app::Router::endpoints();
    assert_eq!(eps.len(), 1);
    assert_eq!(eps[0].path, "sum");
    assert!(eps[0].is_idempotent);
    let eps = add_app::Router::endpoints();
    assert_eq!(eps[0].path, "add");
    assert!(!eps[0].is_idempotent);
}

#[test]
fn generated_names() {
    assert_eq!(endpoint_struct_name("greet"), "EndpointGreet");
    assert_eq!(endpoint_struct_name("add_numbers"), "EndpointAddNumbers");
    assert_eq!(route_path("Greet"), "greet");
    assert_eq!(route_path("AddNumbers"), "add_numbers");
    assert_eq!(endpoint_method(true), "PUT");
    assert_eq!(endpoint_method(false), "POST");
}

#[test]
fn fetch_states() {
    let r: FetchRequest<i32> = FetchRequest::Ready(5);
    assert_eq!(r.get().unwrap().unwrap(), 5);
    let e = Arc::new(anyhow::Error::msg("boom"));
    let r: FetchRequest<i32> = FetchRequest::Failed(e.clone());
    let got = r.get().unwrap().err().unwrap();
    assert!(Arc::ptr_eq(&got, &e));
    assert_eq!(got.to_string(), "boom");
    let r: FetchRequest<i32> = FetchRequest::Pending;
    assert!(r.get().is_none());
    let r: FetchRequest<i32> = FetchRequest::default();
    assert!(matches!(r, FetchRequest::Waiting));
    assert!(r.get().is_none());
}

#[test]
fn fetch_requests() {
    assert!(matches!(fetch_method(true), HttpMethod::Put));
    assert!(matches!(fetch_method(false), HttpMethod::Post));
    assert!(fetch_method(true).is_idempotent());
    assert!(!fetch_method(false).is_idempotent());
    assert_eq!(fetch_url("http://h", "EndpointAdd"), "http://h/api/EndpointAdd");
    let h = fetch_headers("tok");
    assert_eq!(h[0], ("Connection".to_string(), "Keep-Alive".to_string()));
    assert_eq!(h[1], ("Keep-Alive".to_string(), "timeout=600".to_string()));
    assert_eq!(h[2], ("Authorization".to_string(), "Bearer tok".to_string()));
}

#[test]
fn eq_marks_are_optional() {
    let with = vec![
        ident("idempotent"),
        punct('='),
        ident("true"),
        punct(','),
        ident("auth"),
        punct('='),
        ident("NOAUTH"),
    ];
    let without = vec![ident("idempotent"), ident("true"), punct(','), ident("auth"), ident("NOAUTH")];
    let a = RouteInfo::parse(&with).unwrap();
    let b = RouteInfo::parse(&without).unwrap();
    assert!(a.is_idempotent && b.is_idempotent);
    assert_eq!(a.auth, b.auth);
}

#[test]
fn inner_type_decisions() {
    let ok = TypeShape::Path(vec![PathArgs::AngleBracketed(vec![GenericArgKind::Type])]);
    assert_eq!(get_inner_type(&ok), Ok(()));
    let qualified = TypeShape::Path(vec![
        PathArgs::Bare,
        PathArgs::AngleBracketed(vec![GenericArgKind::Type]),
    ]);
    assert_eq!(get_inner_type(&qualified), Ok(()));
    let string = TypeShape::Path(vec![PathArgs::Bare]);
    let e = get_inner_type(&string).err().unwrap();
    assert_eq!(e, InnerTypeError::UnexpectedPathArguments);
    assert_eq!(e.message(), "Unexpected path arguments");
    let generic_first = TypeShape::Path(vec![
        PathArgs::AngleBracketed(vec![GenericArgKind::Type]),
        PathArgs::Bare,
    ]);
    assert_eq!(get_inner_type(&generic_first), Err(InnerTypeError::UnexpectedPathArguments));
    let e = get_inner_type(&TypeShape::Other).err().unwrap();
    assert_eq!(e.message(), "Cant get inner type of non-path");
    let lifetime = TypeShape::Path(vec![PathArgs::AngleBracketed(vec![GenericArgKind::Other])]);
    let e = get_inner_type(&lifetime).err().unwrap();
    assert_eq!(e.message(), "Unexpected non-type generic argument");
    let empty = TypeShape::Path(vec![PathArgs::AngleBracketed(vec![])]);
    assert_eq!(get_inner_type(&empty), Err(InnerTypeError::NoGenericArgument));
    assert_eq!(get_inner_type(&TypeShape::Path(vec![])), Err(InnerTypeError::NoSegment));
    assert_eq!(
        get_inner_type(&TypeShape::Path(vec![PathArgs::Parenthesized])),
        Err(InnerTypeError::UnexpectedPathArguments)
    );
}

#[test]
fn router_declaration_checks() {
    let decl = |is_enum: bool, assets: AttrArg, html: AttrArg, fields: &[(&str, bool)]| RouterDecl {
        is_enum,
        assets,
        html,
        variants: fields
            .iter()
            .map(|(n, f)| VariantDecl { name: n.to_string(), has_field: *f })
            .collect(),
    };
    let d = decl(true, AttrArg::Valid, AttrArg::Valid, &[("Greet", true), ("AddNumbers", true)]);
    assert_eq!(check_router(&d), Ok(()));
    assert_eq!(variant_paths(&d), vec!["greet".to_string(), "add_numbers".to_string()]);
    let d = decl(true, AttrArg::Valid, AttrArg::Invalid, &[("A", true), ("B", false), ("C", false)]);
    let e = check_router(&d).err().unwrap();
    assert_eq!(e, DeriveError::NoEndpoint { variant: 1 });
    assert_eq!(derive_error_message(e, &d), "No endpoint specified for B");
    let d = decl(true, AttrArg::Absent, AttrArg::Invalid, &[("A", false)]);
    let e = check_router(&d).err().unwrap();
    assert_eq!(e, DeriveError::MissingAssets);
    assert_eq!(derive_error_message(e, &d), "Missing #[assets()] attribute");
    let d = decl(true, AttrArg::Invalid, AttrArg::Absent, &[("A", true)]);
    assert_eq!(check_router(&d), Ok(()));
    let d = decl(true, AttrArg::Invalid, AttrArg::Invalid, &[("A", true)]);
    let e = check_router(&d).err().unwrap();
    assert_eq!(e, DeriveError::HtmlNotFunction);
    assert_eq!(derive_error_message(e, &d), "HTML attribute should point to a function");
    let d = decl(false, AttrArg::Invalid, AttrArg::Invalid, &[]);
    let e = check_router(&d).err().unwrap();
    assert_eq!(derive_error_message(e, &d), "Router can only be implemented for enums");
}

#[test]
fn steps_after_auth() {
    let ep = EndpointInfo { path: "a".to_string(), is_idempotent: true, takes_unit: true };
    match after_auth(false, &ep) {
        EndpointStep::Respond(r) => {
            assert_eq!(r.status, 401);
            assert!(body_text(r.body).starts_with("You aren't authorized"));
        }
        _ => panic!("refused credentials must be answered"),
    }
    assert!(matches!(after_auth(true, &ep), EndpointStep::CallWithUnit));
    let ep = EndpointInfo { path: "a".to_string(), is_idempotent: true, takes_unit: false };
    assert!(matches!(after_auth(true, &ep), EndpointStep::ReadBody));
}

#[test]
fn settled_fetches() {
    let r = settle::<i32>(Ok(4));
    assert_eq!(r.get().unwrap().unwrap(), 4);
    let e = Arc::new(anyhow::Error::msg("down"));
    let r = settle::<i32>(Err(e.clone()));
    let copy = r.clone();
    assert!(Arc::ptr_eq(&copy.get().unwrap().err().unwrap(), &e));
    assert!(format!("{:?}", r).starts_with("Failed"));
}
