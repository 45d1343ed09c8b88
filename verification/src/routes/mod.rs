//! What each route decides, and the table of routes that each part mounts.

use vstd::prelude::*;
use crate::text::{parse_bool, spec_parse_bool};

pub mod auth;
pub mod index;
pub mod products;
pub mod users;

verus! {

#[derive(PartialEq, Eq, Structural, Clone, Copy)]
pub enum Method {
    Get,
    Post,
}

/// One route: its method, its path pattern (relative to where it is
/// mounted), and the name of the handler.
pub struct RouteInfo {
    pub method: Method,
    pub path: String,
    pub handler: String,
}

/// The routes as plain values.
pub open spec fn routes_view(rs: Seq<RouteInfo>) -> Seq<(Method, Seq<char>, Seq<char>)> {
    rs.map_values(|r: RouteInfo| (r.method, r.path@, r.handler@))
}

pub fn route(method: Method, path: &str, handler: &str) -> (r: RouteInfo)
    ensures
        r.method == method,
        r.path@ == path@,
        r.handler@ == handler@,
{
    RouteInfo { method, path: String::from_str(path), handler: String::from_str(handler) }
}

/// What the page templates are told of the visitor.
pub struct UserContext {
    pub name: Option<String>,
    pub is_admin: bool,
    pub logged_in: bool,
}

/// Where reading the private cookies fails outright:
/// `is_admin` or `logged_in` set to text that is no `bool`.
pub open spec fn context_unreadable(is_admin: Option<Seq<char>>, logged_in: Option<Seq<char>>) -> bool {
    ||| (is_admin matches Some(a) && spec_parse_bool(a) is None)
    ||| (logged_in matches Some(l) && spec_parse_bool(l) is None)
}

fn read_flag(value: Option<&str>) -> (r: bool)
    requires
        value matches Some(v) ==> spec_parse_bool(v@) is Some,
    ensures
        r == match value {
            Some(v) => spec_parse_bool(v@)->0,
            None => false,
        },
{
    match value {
        Some(v) => match parse_bool(v) {
            Some(b) => b,
            None => false,
        },
        None => false,
    }
}

impl UserContext {
    /// The context from the private cookies `name`, `is_admin` and
    /// `logged_in`: the name where set; each flag as its text reads, `false`
    /// where unset.
    pub fn from_cookiejar(name: Option<&str>, is_admin: Option<&str>, logged_in: Option<&str>) -> (c:
        UserContext)
        requires
            !context_unreadable(
                match is_admin {
                    Some(a) => Some(a@),
                    None => None,
                },
                match logged_in {
                    Some(l) => Some(l@),
                    None => None,
                },
            ),
        ensures
            match name {
                Some(n) => c.name matches Some(cn) && cn@ == n@,
                None => c.name is None,
            },
            c.is_admin == match is_admin {
                Some(a) => spec_parse_bool(a@)->0,
                None => false,
            },
            c.logged_in == match logged_in {
                Some(l) => spec_parse_bool(l@)->0,
                None => false,
            },
    {
        UserContext {
            name: match name {
                Some(n) => Some(n.to_owned()),
                None => None,
            },
            is_admin: read_flag(is_admin),
            logged_in: read_flag(logged_in),
        }
    }
}

} // verus!
