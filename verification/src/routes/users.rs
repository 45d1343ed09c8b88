//! Managing users, for administrators, mounted at `/users`.

use vstd::prelude::*;
use crate::reply::{flash_only, flash_redirect, redirect, FlashKind, Reply, ReplyView};
use crate::routes::{route, routes_view, Method, RouteInfo};

verus! {

/// `GET /users/delete/<id>`, on whether deleting the row succeeded: "Deleted
/// one user" or "Could not delete the user", on the way to the user list.
pub fn delete_reply(deleted: bool) -> (r: Reply)
    ensures
        r@ == (ReplyView {
            location: "/users/list"@,
            flash: Some(
                if deleted {
                    (FlashKind::Success, "Deleted one user"@)
                } else {
                    (FlashKind::Error, "Could not delete the user"@)
                },
            ),
            cookies: Seq::empty(),
        }),
{
    if deleted {
        flash_only("/users/list", FlashKind::Success, "Deleted one user")
    } else {
        flash_only("/users/list", FlashKind::Error, "Could not delete the user")
    }
}

/// `POST /users/edit/<id>`, once the row is updated: a plain redirect to the
/// user list.
pub fn edit_post_reply() -> (r: Reply)
    ensures
        r@ == (ReplyView { location: "/users/list"@, flash: None, cookies: Seq::empty() }),
{
    redirect("/users/list")
}

/// The routes mounted at `/users`.
pub fn get_routes() -> (rs: Vec<RouteInfo>)
    ensures
        routes_view(rs@) == seq![
            (Method::Get, "/list"@, "list"@),
            (Method::Get, "/delete/<id>"@, "delete"@),
            (Method::Get, "/edit/<id>"@, "edit"@),
            (Method::Post, "/edit/<id>"@, "edit_post"@),
        ],
{
    let mut rs = Vec::new();
    rs.push(route(Method::Get, "/list", "list"));
    rs.push(route(Method::Get, "/delete/<id>", "delete"));
    rs.push(route(Method::Get, "/edit/<id>", "edit"));
    rs.push(route(Method::Post, "/edit/<id>", "edit_post"));
    assert(routes_view(rs@) =~= seq![
        (Method::Get, "/list"@, "list"@),
        (Method::Get, "/delete/<id>"@, "delete"@),
        (Method::Get, "/edit/<id>"@, "edit"@),
        (Method::Post, "/edit/<id>"@, "edit_post"@),
    ]);
    rs
}

} // verus!
