//! The signed-in user, kept in four private cookies, and the guards that let
//! a request through only when the cookies name a user (an administrator, for
//! the admin guard).

use vstd::prelude::*;
use crate::cookies::{
    apply_changes, changes_view, read_private, remove_private, set_private, ChangeView, CookieChange,
    Jar, StoredCookie,
};
use crate::models::User;
use crate::text::{i32_text, i32_to_string, lemma_i32_text_parses, spec_parse_i32};

verus! {

/// The least privilege of an administrator.
pub const ADMIN_PRIVILEGE: i32 = 1000;

/// The signed-in user, as the session cookies hold it.
pub struct InnerUser {
    pub id: i32,
    pub name: String,
    pub email: String,
    pub privilege: i32,
}

/// A user as plain values.
pub struct UserView {
    pub id: i32,
    pub name: Seq<char>,
    pub email: Seq<char>,
    pub privilege: i32,
}

impl View for InnerUser {
    type V = UserView;

    open spec fn view(&self) -> UserView {
        UserView { id: self.id, name: self.name@, email: self.email@, privilege: self.privilege }
    }
}

impl Clone for InnerUser {
    fn clone(&self) -> (r: Self)
        ensures
            r == *self,
    {
        InnerUser {
            id: self.id,
            name: self.name.clone(),
            email: self.email.clone(),
            privilege: self.privilege,
        }
    }
}

/// A request made by a signed-in user.
pub struct UserGuard(pub InnerUser);

/// A request made by a signed-in administrator.
pub struct AdminUserGuard(pub InnerUser);

/// The values of the private cookies `user_id`, `name`, `email` and
/// `privilege`, where they are set.
pub struct SessionCookies {
    pub user_id: Option<String>,
    pub name: Option<String>,
    pub email: Option<String>,
    pub privilege: Option<String>,
}

/// The session cookies as plain values.
pub struct SessionView {
    pub user_id: Option<Seq<char>>,
    pub name: Option<Seq<char>>,
    pub email: Option<Seq<char>>,
    pub privilege: Option<Seq<char>>,
}

pub open spec fn opt_view(o: Option<String>) -> Option<Seq<char>> {
    match o {
        Some(s) => Some(s@),
        None => None,
    }
}

impl View for SessionCookies {
    type V = SessionView;

    open spec fn view(&self) -> SessionView {
        SessionView {
            user_id: opt_view(self.user_id),
            name: opt_view(self.name),
            email: opt_view(self.email),
            privilege: opt_view(self.privilege),
        }
    }
}

/// The names of the session cookies.
pub open spec fn user_id_cookie() -> Seq<char> {
    "user_id"@
}

pub open spec fn name_cookie() -> Seq<char> {
    "name"@
}

pub open spec fn email_cookie() -> Seq<char> {
    "email"@
}

pub open spec fn privilege_cookie() -> Seq<char> {
    "privilege"@
}

/// The session cookies that a jar holds.
pub open spec fn session_of(jar: Jar) -> SessionView {
    SessionView {
        user_id: read_private(jar, user_id_cookie()),
        name: read_private(jar, name_cookie()),
        email: read_private(jar, email_cookie()),
        privilege: read_private(jar, privilege_cookie()),
    }
}

/// Where reading the session fails outright: `user_id` is set but is no
/// `i32`, or all four are set and `privilege` is no `i32`.
pub open spec fn session_unreadable(s: SessionView) -> bool {
    ||| (s.user_id matches Some(u) && spec_parse_i32(u) is None)
    ||| (s.user_id is Some && s.name is Some && s.email is Some && (s.privilege matches Some(p)
        && spec_parse_i32(p) is None))
}

/// The user that the session cookies name: only when all four are set.
pub open spec fn session_user(s: SessionView) -> Option<UserView> {
    match (s.user_id, s.name, s.email, s.privilege) {
        (Some(u), Some(n), Some(e), Some(p)) => Some(
            UserView {
                id: spec_parse_i32(u)->0,
                name: n,
                email: e,
                privilege: spec_parse_i32(p)->0,
            },
        ),
        _ => None,
    }
}

/// The changes that sign `u` in.
pub open spec fn spec_session_cookies(u: UserView) -> Seq<ChangeView> {
    seq![
        ChangeView { name: user_id_cookie(), value: Some(i32_text(u.id)), private: true },
        ChangeView { name: name_cookie(), value: Some(u.name), private: true },
        ChangeView { name: email_cookie(), value: Some(u.email), private: true },
        ChangeView { name: privilege_cookie(), value: Some(i32_text(u.privilege)), private: true },
    ]
}

/// The changes that sign out.
pub open spec fn spec_signout_cookies() -> Seq<ChangeView> {
    seq![
        ChangeView { name: user_id_cookie(), value: None, private: true },
        ChangeView { name: name_cookie(), value: None, private: true },
        ChangeView { name: email_cookie(), value: None, private: true },
        ChangeView { name: privilege_cookie(), value: None, private: true },
    ]
}

fn read_session(cookies: &SessionCookies) -> (r: Option<InnerUser>)
    requires
        !session_unreadable(cookies@),
    ensures
        match r {
            Some(u) => session_user(cookies@) == Some(u@),
            None => session_user(cookies@) is None,
        },
{
    match (&cookies.user_id, &cookies.name, &cookies.email, &cookies.privilege) {
        (Some(u), Some(n), Some(e), Some(p)) => {
            let id = crate::text::parse_i32(u.as_str());
            let privilege = crate::text::parse_i32(p.as_str());
            match (id, privilege) {
                (Some(id), Some(privilege)) => Some(
                    InnerUser { id, name: n.clone(), email: e.clone(), privilege },
                ),
                _ => None,
            }
        },
        _ => None,
    }
}

impl UserGuard {
    /// Lets the request through when the session cookies name a user.
    pub fn from_request(cookies: &SessionCookies) -> (r: Option<UserGuard>)
        requires
            !session_unreadable(cookies@),
        ensures
            match r {
                Some(g) => session_user(cookies@) == Some(g.0@),
                None => session_user(cookies@) is None,
            },
    {
        match read_session(cookies) {
            Some(u) => Some(UserGuard(u)),
            None => None,
        }
    }

}

impl std::ops::Deref for UserGuard {
    type Target = InnerUser;

    /// The signed-in user.
    fn deref(&self) -> (u: &InnerUser)
        ensures
            *u == self.0,
    {
        &self.0
    }
}

impl AdminUserGuard {
    /// Lets the request through when the session cookies name a user whose
    /// privilege is at least `ADMIN_PRIVILEGE`.
    pub fn from_request(cookies: &SessionCookies) -> (r: Option<AdminUserGuard>)
        requires
            !session_unreadable(cookies@),
        ensures
            match r {
                Some(g) => session_user(cookies@) == Some(g.0@) && g.0.privilege >= ADMIN_PRIVILEGE,
                None => match session_user(cookies@) {
                    Some(u) => u.privilege < ADMIN_PRIVILEGE,
                    None => true,
                },
            },
    {
        match read_session(cookies) {
            Some(u) => {
                if u.privilege >= ADMIN_PRIVILEGE {
                    Some(AdminUserGuard(u))
                } else {
                    None
                }
            },
            None => None,
        }
    }

}

impl std::ops::Deref for AdminUserGuard {
    type Target = InnerUser;

    /// The signed-in administrator.
    fn deref(&self) -> (u: &InnerUser)
        ensures
            *u == self.0,
    {
        &self.0
    }
}

impl InnerUser {
    /// The user that a `users` row signs in as.
    pub fn from_user(user: &User) -> (u: InnerUser)
        ensures
            u@ == (UserView {
                id: user.id,
                name: user.name@,
                email: user.email@,
                privilege: user.privilege,
            }),
    {
        InnerUser {
            id: user.id,
            name: user.name.clone(),
            email: user.email.clone(),
            privilege: user.privilege,
        }
    }

    /// The cookie changes that sign this user in: the four private cookies
    /// `user_id`, `name`, `email` and `privilege`.
    pub fn session_cookies(&self) -> (cs: Vec<CookieChange>)
        ensures
            changes_view(cs@) == spec_session_cookies(self@),
    {
        let mut cs: Vec<CookieChange> = Vec::new();
        cs.push(set_private("user_id", i32_to_string(self.id)));
        cs.push(set_private("name", self.name.clone()));
        cs.push(set_private("email", self.email.clone()));
        cs.push(set_private("privilege", i32_to_string(self.privilege)));
        assert(changes_view(cs@) =~= spec_session_cookies(self@));
        cs
    }

    /// The cookie changes that sign out: removing the four session cookies.
    pub fn remove_cookies() -> (cs: Vec<CookieChange>)
        ensures
            changes_view(cs@) == spec_signout_cookies(),
    {
        let mut cs: Vec<CookieChange> = Vec::new();
        cs.push(remove_private("user_id"));
        cs.push(remove_private("name"));
        cs.push(remove_private("email"));
        cs.push(remove_private("privilege"));
        assert(changes_view(cs@) =~= spec_signout_cookies());
        cs
    }
}

proof fn lemma_cookie_names_differ()
    ensures
        user_id_cookie() != name_cookie(),
        user_id_cookie() != email_cookie(),
        user_id_cookie() != privilege_cookie(),
        name_cookie() != email_cookie(),
        name_cookie() != privilege_cookie(),
        email_cookie() != privilege_cookie(),
{
    reveal_strlit("user_id");
    reveal_strlit("name");
    reveal_strlit("email");
    reveal_strlit("privilege");
    assert(user_id_cookie().len() != name_cookie().len());
    assert(user_id_cookie().len() != email_cookie().len());
    assert(user_id_cookie().len() != privilege_cookie().len());
    assert(name_cookie().len() != email_cookie().len());
    assert(name_cookie().len() != privilege_cookie().len());
    assert(email_cookie().len() != privilege_cookie().len());
}

proof fn lemma_apply_four(jar: Jar, cs: Seq<ChangeView>)
    requires
        cs.len() == 4,
    ensures
        apply_changes(jar, cs) == apply_change4(jar, cs),
{
    let c3 = cs.drop_last();
    let c2 = c3.drop_last();
    let c1 = c2.drop_last();
    let c0 = c1.drop_last();
    assert(c0 =~= Seq::<ChangeView>::empty());
    assert(apply_changes(jar, c0) == jar);
    assert(apply_changes(jar, c1) == crate::cookies::apply_change(jar, cs[0]));
    assert(apply_changes(jar, c2) == crate::cookies::apply_change(apply_changes(jar, c1), cs[1]));
    assert(apply_changes(jar, c3) == crate::cookies::apply_change(apply_changes(jar, c2), cs[2]));
}

spec fn apply_change4(jar: Jar, cs: Seq<ChangeView>) -> Jar {
    crate::cookies::apply_change(
        crate::cookies::apply_change(
            crate::cookies::apply_change(crate::cookies::apply_change(jar, cs[0]), cs[1]),
            cs[2],
        ),
        cs[3],
    )
}

/// Signing a user in and then reading the session back, whatever the jar held
/// before, gives that user, and reading does not fail.
pub proof fn lemma_sign_in_then_read(jar: Jar, u: UserView)
    ensures
        !session_unreadable(session_of(apply_changes(jar, spec_session_cookies(u)))),
        session_user(session_of(apply_changes(jar, spec_session_cookies(u)))) == Some(u),
{
    lemma_cookie_names_differ();
    lemma_i32_text_parses(u.id);
    lemma_i32_text_parses(u.privilege);
    let cs = spec_session_cookies(u);
    lemma_apply_four(jar, cs);
    let j = apply_changes(jar, cs);
    assert(j.contains_key(user_id_cookie()) && j[user_id_cookie()] == StoredCookie {
        value: i32_text(u.id),
        private: true,
    });
    assert(j.contains_key(name_cookie()) && j[name_cookie()] == StoredCookie {
        value: u.name,
        private: true,
    });
    assert(j.contains_key(email_cookie()) && j[email_cookie()] == StoredCookie {
        value: u.email,
        private: true,
    });
    assert(j.contains_key(privilege_cookie()) && j[privilege_cookie()] == StoredCookie {
        value: i32_text(u.privilege),
        private: true,
    });
}

/// After signing out, whatever the jar held before, the session names no
/// user: both guards turn the request away.
pub proof fn lemma_sign_out_then_read(jar: Jar)
    ensures
        !session_unreadable(session_of(apply_changes(jar, spec_signout_cookies()))),
        session_user(session_of(apply_changes(jar, spec_signout_cookies()))) is None,
{
    lemma_cookie_names_differ();
    let cs = spec_signout_cookies();
    lemma_apply_four(jar, cs);
    let j = apply_changes(jar, cs);
    assert(!j.contains_key(user_id_cookie()));
}

} // verus!
