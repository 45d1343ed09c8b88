//! The site root sends visitors on to the product list.

use vstd::prelude::*;
use crate::reply::{redirect, Reply, ReplyView};
use crate::routes::{route, routes_view, Method, RouteInfo};

verus! {

/// `GET /`: a plain redirect to `/products/list`.
pub fn index() -> (r: Reply)
    ensures
        r@ == (ReplyView { location: "/products/list"@, flash: None, cookies: Seq::empty() }),
{
    redirect("/products/list")
}

/// The routes mounted at `/`.
pub fn get_routes() -> (rs: Vec<RouteInfo>)
    ensures
        routes_view(rs@) == seq![(Method::Get, "/"@, "index"@)],
{
    let mut rs = Vec::new();
    rs.push(route(Method::Get, "/", "index"));
    assert(routes_view(rs@) =~= seq![(Method::Get, "/"@, "index"@)]);
    rs
}

} // verus!
