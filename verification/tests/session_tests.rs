use shop::cookies::CookieChange;
use shop::guards::{AdminUserGuard, InnerUser, SessionCookies, UserGuard, ADMIN_PRIVILEGE};
use shop::models::User;
use shop::reply::FlashKind;
use shop::routes::auth::{login_credentials, login_reply, logout, register_reply, register_step, RegisterStep};
use shop::routes::users::{delete_reply, edit_post_reply};
use shop::routes::{index, Method, UserContext};
use std::collections::HashMap;

fn row(id: i32, privilege: i32) -> User {
    User {
        id,
        name: "Ada".to_string(),
        email: "ada@example.com".to_string(),
        password: "x".to_string(),
        privilege,
    }
}

/// A jar of private cookies, changed as a browser would.
fn apply(jar: &mut HashMap<String, String>, cookies: &Vec<CookieChange>) {
    for c in cookies {
        assert!(c.private);
        match &c.value {
            Some(v) => {
                jar.insert(c.name.clone(), v.clone());
            }
            None => {
                jar.remove(&c.name);
            }
        }
    }
}

fn session(jar: &HashMap<String, String>) -> SessionCookies {
    SessionCookies {
        user_id: jar.get("user_id").cloned(),
        name: jar.get("name").cloned(),
        email: jar.get("email").cloned(),
        privilege: jar.get("privilege").cloned(),
    }
}

fn cookies(user_id: Option<&str>, privilege: Option<&str>) -> SessionCookies {
    SessionCookies {
        user_id: user_id.map(|s| s.to_string()),
        name: Some("Bo".to_string()),
        email: Some("bo@example.com".to_string()),
        privilege: privilege.map(|s| s.to_string()),
    }
}

#[test]
fn guard_reads_the_session_cookies() {
    let g = UserGuard::from_request(&cookies(Some("7"), Some("3"))).unwrap();
    assert_eq!(g.id, 7);
    assert_eq!(g.name, "Bo");
    assert_eq!(g.email, "bo@example.com");
    assert_eq!(g.privilege, 3);
}

#[test]
fn guard_refuses_a_missing_cookie() {
    assert!(UserGuard::from_request(&cookies(None, Some("3"))).is_none());
    assert!(UserGuard::from_request(&cookies(Some("7"), None)).is_none());
    let mut c = cookies(Some("7"), Some("3"));
    c.email = None;
    assert!(UserGuard::from_request(&c).is_none());
}

#[test]
fn admin_guard_needs_admin_privilege() {
    assert_eq!(ADMIN_PRIVILEGE, 1000);
    assert!(AdminUserGuard::from_request(&cookies(Some("7"), Some("999"))).is_none());
    let g = AdminUserGuard::from_request(&cookies(Some("7"), Some("1000"))).unwrap();
    assert_eq!(g.privilege, 1000);
    assert!(AdminUserGuard::from_request(&cookies(None, Some("5000"))).is_none());
}

#[test]
fn login_then_guard_reads_the_user_back() {
    let mut jar = HashMap::new();
    jar.insert("user_id".to_string(), "1".to_string());
    let r = login_reply(Some(&row(-42, 1000)));
    assert_eq!(r.location, "/");
    let f = r.flash.as_ref().unwrap();
    assert!(f.kind == FlashKind::Success);
    assert_eq!(f.message, "Successfully logged in");
    apply(&mut jar, &r.cookies);
    assert_eq!(jar.get("user_id").map(|s| s.as_str()), Some("-42"));
    let g = UserGuard::from_request(&session(&jar)).unwrap();
    assert_eq!((g.id, g.name.as_str(), g.email.as_str(), g.privilege), (-42, "Ada", "ada@example.com", 1000));
    assert!(AdminUserGuard::from_request(&session(&jar)).is_some());
}

#[test]
fn logout_then_guards_refuse() {
    let mut jar = HashMap::new();
    apply(&mut jar, &login_reply(Some(&row(3, 5))).cookies);
    let r = logout();
    assert_eq!(r.location, "/");
    assert_eq!(r.flash.as_ref().unwrap().message, "Successfully logged out");
    apply(&mut jar, &r.cookies);
    assert!(jar.is_empty());
    assert!(UserGuard::from_request(&session(&jar)).is_none());
    assert!(AdminUserGuard::from_request(&session(&jar)).is_none());
}

#[test]
fn remove_cookies_names_the_four_session_cookies() {
    let cs = InnerUser::remove_cookies();
    let names: Vec<&str> = cs.iter().map(|c| c.name.as_str()).collect();
    assert_eq!(names, vec!["user_id", "name", "email", "privilege"]);
    assert!(cs.iter().all(|c| c.value.is_none() && c.private));
}

#[test]
fn login_with_unknown_credentials_fails() {
    let r = login_reply(None);
    assert_eq!(r.location, "/auth/login?failed=true");
    let f = r.flash.unwrap();
    assert!(f.kind == FlashKind::Error);
    assert_eq!(f.message, "Wrong cridentials");
    assert!(r.cookies.is_empty());
}

#[test]
fn login_credentials_hash_the_password() {
    let c = login_credentials("a@b.c", "password");
    assert_eq!(c.email, "a@b.c");
    assert_eq!(c.password_hash, "5e884898da28047151d0e56f8dc6292773603d0d6aabbdd62a11ef721d1542d8");
}

#[test]
fn register_refuses_a_taken_email() {
    match register_step("Ada", "ada@example.com", "pw", true) {
        RegisterStep::Refuse(r) => {
            assert_eq!(r.location, "/auth/register?failed=true");
            let f = r.flash.unwrap();
            assert!(f.kind == FlashKind::Error);
            assert_eq!(f.message, "User already exists");
        }
        RegisterStep::Insert(_) => panic!("a taken email was inserted"),
    }
}

#[test]
fn register_inserts_the_hashed_password() {
    match register_step("Ada", "ada@example.com", "password", false) {
        RegisterStep::Insert(row) => {
            assert_eq!(row.name, "Ada");
            assert_eq!(row.email, "ada@example.com");
            assert_eq!(row.password, login_credentials("ada@example.com", "password").password_hash);
        }
        RegisterStep::Refuse(_) => panic!("a free email was refused"),
    }
    let r = register_reply(&row(9, 0));
    assert_eq!(r.location, "/");
    assert_eq!(r.cookies.len(), 4);
    assert_eq!(r.cookies[0].value.as_deref(), Some("9"));
}

#[test]
fn user_admin_replies() {
    let r = delete_reply(true);
    assert_eq!(r.location, "/users/list");
    assert_eq!(r.flash.unwrap().message, "Deleted one user");
    let r = delete_reply(false);
    let f = r.flash.unwrap();
    assert!(f.kind == FlashKind::Error);
    assert_eq!(f.message, "Could not delete the user");
    let r = edit_post_reply();
    assert_eq!(r.location, "/users/list");
    assert!(r.flash.is_none());
}

#[test]
fn index_redirects_to_the_product_list() {
    let r = index::index();
    assert_eq!(r.location, "/products/list");
    assert!(r.flash.is_none() && r.cookies.is_empty());
    assert_eq!(shop::routes::products::index().location, "/products/list");
}

#[test]
fn user_context_reads_its_cookies() {
    let c = UserContext::from_cookiejar(Some("Ada"), Some("true"), None);
    assert_eq!(c.name.as_deref(), Some("Ada"));
    assert!(c.is_admin);
    assert!(!c.logged_in);
    let c = UserContext::from_cookiejar(None, Some("false"), Some("true"));
    assert!(c.name.is_none() && !c.is_admin && c.logged_in);
}

#[test]
fn route_tables() {
    let auth = shop::routes::auth::get_routes();
    let paths: Vec<&str> = auth.iter().map(|r| r.path.as_str()).collect();
    assert_eq!(paths, vec!["/login?<failed>", "/login", "/register?<failed>", "/register", "/logout"]);
    assert!(auth[1].method == Method::Post && auth[1].handler == "login_post");
    assert_eq!(shop::routes::index::get_routes().len(), 1);
    let products = shop::routes::products::get_routes();
    assert_eq!(products[4].path, "/delete_from_cart/<id>");
    let users = shop::routes::users::get_routes();
    assert!(users[3].method == Method::Post && users[3].path == "/edit/<id>");
}
