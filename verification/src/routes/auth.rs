//! Signing in, registering and signing out, mounted at `/auth`.

use vstd::prelude::*;
use crate::cookies::{apply_changes, Jar};
use crate::guards::{
    lemma_sign_in_then_read, lemma_sign_out_then_read, session_of, session_unreadable, session_user,
    spec_session_cookies, spec_signout_cookies, InnerUser, UserView,
};
use crate::models::{NewUser, User};
use crate::password::{password_hash, spec_password_hash};
use crate::reply::{flash_only, flash_redirect, FlashKind, Reply, ReplyView};
use crate::routes::{route, routes_view, Method, RouteInfo};

verus! {

/// The user a `users` row signs in as.
pub open spec fn row_user(user: &User) -> UserView {
    UserView { id: user.id, name: user.name@, email: user.email@, privilege: user.privilege }
}

/// What signing in looks up: the row with this email and password hash.
pub struct Credentials {
    pub email: String,
    pub password_hash: String,
}

/// `POST /login`, first step: the email as given and the stored form of the
/// password, to look the user up by.
pub fn login_credentials(email: &str, password: &str) -> (c: Credentials)
    ensures
        c.email@ == email@,
        c.password_hash@ == spec_password_hash(password@),
{
    Credentials { email: String::from_str(email), password_hash: password_hash(password) }
}

/// The reply once a user is known: the session cookies for that user, and
/// "Successfully logged in" on the way to `/`.
pub open spec fn spec_signed_in_reply(user: UserView) -> ReplyView {
    ReplyView {
        location: "/"@,
        flash: Some((FlashKind::Success, "Successfully logged in"@)),
        cookies: spec_session_cookies(user),
    }
}

fn signed_in_reply(user: &User) -> (r: Reply)
    ensures
        r@ == spec_signed_in_reply(row_user(user)),
        r@.location == "/"@,
        r@.flash == Some((FlashKind::Success, "Successfully logged in"@)),
        r@.cookies == spec_session_cookies(row_user(user)),
{
    let u = InnerUser::from_user(user);
    flash_redirect("/", FlashKind::Success, "Successfully logged in", u.session_cookies())
}

/// `POST /login`, second step, on what the lookup found: with no such user,
/// "Wrong cridentials" on the way back to the sign-in page and no cookie
/// touched; else the user is signed in.
pub fn login_reply(found: Option<&User>) -> (r: Reply)
    ensures
        r@ == match found {
            Some(u) => spec_signed_in_reply(row_user(u)),
            None => ReplyView {
                location: "/auth/login?failed=true"@,
                flash: Some((FlashKind::Error, "Wrong cridentials"@)),
                cookies: Seq::empty(),
            },
        },
        found is Some ==> r@.location == "/"@ && r@.flash == Some(
            (FlashKind::Success, "Successfully logged in"@),
        ),
{
    match found {
        Some(u) => signed_in_reply(u),
        None => flash_only("/auth/login?failed=true", FlashKind::Error, "Wrong cridentials"),
    }
}

/// What registering does once it knows whether the email is taken.
pub enum RegisterStep {
    /// Turn the request away with this reply.
    Refuse(Reply),
    /// Insert this row, then read it back and sign it in.
    Insert(NewUser),
}

/// `POST /register`, after looking the email up: a taken email gets "User
/// already exists" on the way back to the register page; else the new row
/// holds the name, the email and the stored form of the password.
pub fn register_step(name: &str, email: &str, password: &str, taken: bool) -> (s: RegisterStep)
    ensures
        match s {
            RegisterStep::Refuse(r) => taken && r@ == (ReplyView {
                location: "/auth/register?failed=true"@,
                flash: Some((FlashKind::Error, "User already exists"@)),
                cookies: Seq::empty(),
            }),
            RegisterStep::Insert(row) => !taken && row.name@ == name@ && row.email@ == email@
                && row.password@ == spec_password_hash(password@),
        },
{
    if taken {
        RegisterStep::Refuse(
            flash_only("/auth/register?failed=true", FlashKind::Error, "User already exists"),
        )
    } else {
        RegisterStep::Insert(
            NewUser {
                name: String::from_str(name),
                email: String::from_str(email),
                password: password_hash(password),
            },
        )
    }
}

/// `POST /register`, last step, on the row read back: it is signed in.
pub fn register_reply(user: &User) -> (r: Reply)
    ensures
        r@ == spec_signed_in_reply(row_user(user)),
        r@.location == "/"@,
        r@.flash == Some((FlashKind::Success, "Successfully logged in"@)),
        r@.cookies == spec_session_cookies(row_user(user)),
{
    signed_in_reply(user)
}

/// `GET /logout`: the session cookies removed, and "Successfully logged out"
/// on the way to `/`.
pub fn logout() -> (r: Reply)
    ensures
        r@ == (ReplyView {
            location: "/"@,
            flash: Some((FlashKind::Success, "Successfully logged out"@)),
            cookies: spec_signout_cookies(),
        }),
{
    flash_redirect("/", FlashKind::Success, "Successfully logged out", InnerUser::remove_cookies())
}

/// The routes mounted at `/auth`.
pub fn get_routes() -> (rs: Vec<RouteInfo>)
    ensures
        routes_view(rs@) == seq![
            (Method::Get, "/login?<failed>"@, "login"@),
            (Method::Post, "/login"@, "login_post"@),
            (Method::Get, "/register?<failed>"@, "register"@),
            (Method::Post, "/register"@, "register_post"@),
            (Method::Get, "/logout"@, "logout"@),
        ],
{
    let mut rs = Vec::new();
    rs.push(route(Method::Get, "/login?<failed>", "login"));
    rs.push(route(Method::Post, "/login", "login_post"));
    rs.push(route(Method::Get, "/register?<failed>", "register"));
    rs.push(route(Method::Post, "/register", "register_post"));
    rs.push(route(Method::Get, "/logout", "logout"));
    assert(routes_view(rs@) =~= seq![
        (Method::Get, "/login?<failed>"@, "login"@),
        (Method::Post, "/login"@, "login_post"@),
        (Method::Get, "/register?<failed>"@, "register"@),
        (Method::Post, "/register"@, "register_post"@),
        (Method::Get, "/logout"@, "logout"@),
    ]);
    rs
}

/// After signing in (or registering) as a row, whatever cookies the browser
/// held, the guards read that user back.
pub proof fn lemma_signed_in_reply_reads_back(jar: Jar, user: UserView)
    ensures
        !session_unreadable(
            session_of(apply_changes(jar, spec_signed_in_reply(user).cookies)),
        ),
        session_user(session_of(apply_changes(jar, spec_signed_in_reply(user).cookies))) == Some(
            user,
        ),
{
    lemma_sign_in_then_read(jar, user);
}

/// After signing out, whatever cookies the browser held, the guards read no
/// user: requests that need one are turned away.
pub proof fn lemma_logout_signs_out(jar: Jar, r: ReplyView)
    requires
        r == (ReplyView {
            location: "/"@,
            flash: Some((FlashKind::Success, "Successfully logged out"@)),
            cookies: spec_signout_cookies(),
        }),
    ensures
        !session_unreadable(session_of(apply_changes(jar, r.cookies))),
        session_user(session_of(apply_changes(jar, r.cookies))) is None,
{
    lemma_sign_out_then_read(jar);
}

/// Signing in always goes to `/` with "Successfully logged in", whoever the
/// user is (whatever the privilege); only the session cookies depend on the
/// user, and they name exactly that user.
pub proof fn lemma_signed_in_reply_same_for_all(u: UserView, v: UserView)
    ensures
        spec_signed_in_reply(u).location == "/"@,
        spec_signed_in_reply(u).flash == Some((FlashKind::Success, "Successfully logged in"@)),
        spec_signed_in_reply(u).location == spec_signed_in_reply(v).location,
        spec_signed_in_reply(u).flash == spec_signed_in_reply(v).flash,
        spec_signed_in_reply(u).cookies == spec_session_cookies(u),
{
}

/// Registering and then signing in with the same password look the user up by
/// the same stored form: the whole password's digest in hex.
pub proof fn lemma_register_then_login_same_hash(password: Seq<char>)
    ensures
        spec_password_hash(password).len() == 2 * crate::password::sha256(password).len(),
        forall|k: int|
            0 <= k < crate::password::sha256(password).len() ==> spec_password_hash(password)[2 * k]
                == crate::text::hex_digits()[(#[trigger] crate::password::sha256(password)[k]) as int / 16]
                && spec_password_hash(password)[2 * k + 1] == crate::text::hex_digits()[
            crate::password::sha256(password)[k] as int % 16],
{
    crate::password::lemma_password_hash_is_hex_digest(password);
}

} // verus!
