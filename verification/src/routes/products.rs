//! The product list and the shopping cart, mounted at `/products`.

use vstd::prelude::*;
use crate::cart::{
    add_to_cart, cart_counts, cart_ids, counts_fit, is_cart_text, is_tally_of, lemma_add_then_read,
    lemma_remove_then_read, remove_from_cart, spec_add_to_cart, spec_cart_ids, spec_remove_from_cart,
};
use crate::cookies::{
    apply_changes, read_plain, remove_plain, set_plain, ChangeView, CookieChange, Jar, StoredCookie,
};
use crate::models::Product;
use crate::reply::{flash_only, flash_redirect, redirect, FlashKind, Reply, ReplyView};
use crate::routes::{route, routes_view, Method, RouteInfo};

verus! {

/// One line of the cart page: a product and how many of it are in the cart.
pub struct CartEntry {
    pub count: i32,
    pub item: Product,
}

/// The name of the cart cookie.
pub open spec fn cart_cookie() -> Seq<char> {
    "cart"@
}

/// `GET /products/`: a plain redirect to the product list.
pub fn index() -> (r: Reply)
    ensures
        r@ == (ReplyView { location: "/products/list"@, flash: None, cookies: Seq::empty() }),
{
    redirect("/products/list")
}

/// `GET /products/to_cart/<id>`, given the plain cookie `cart` if set: the
/// cookie is set to the cart with `id` added, on the way to the product list.
pub fn to_cart(id: i32, cart: Option<&str>) -> (r: Reply)
    ensures
        r@ == (ReplyView {
            location: "/products/list"@,
            flash: None,
            cookies: seq![
                ChangeView {
                    name: cart_cookie(),
                    value: Some(
                        spec_add_to_cart(
                            match cart {
                                Some(c) => Some(c@),
                                None => None,
                            },
                            id,
                        ),
                    ),
                    private: false,
                },
            ],
        }),
{
    let mut r = redirect("/products/list");
    r.cookies.push(set_plain("cart", add_to_cart(cart, id)));
    assert(r@.cookies =~= seq![r.cookies@[0]@]);
    r
}

/// The cart page's tally of the plain cookie `cart`: no cookie is an empty
/// cart; else each id once, in the order first added, with its count.
/// `None` where a piece of the cookie is no `i32`, or where one id stands
/// more times than an `i32` count can hold (the page fails there).
pub fn cart_tally(cart: Option<&str>) -> (r: Option<Vec<(i32, i32)>>)
    ensures
        match cart {
            None => r matches Some(t) && t@.len() == 0,
            Some(c) => match spec_cart_ids(c@) {
                None => r is None,
                Some(ids) => if counts_fit(ids) {
                    r matches Some(t) && is_tally_of(t@, ids)
                } else {
                    r is None
                },
            },
        },
{
    match cart {
        None => Some(Vec::new()),
        Some(c) => match cart_ids(c) {
            None => None,
            Some(ids) => cart_counts(&ids),
        },
    }
}

/// The ids of a tally: the products to look up.
pub fn tally_ids(tally: &Vec<(i32, i32)>) -> (ids: Vec<i32>)
    ensures
        ids@.len() == tally@.len(),
        forall|k: int| 0 <= k < ids@.len() ==> ids@[k] == (#[trigger] tally@[k]).0,
{
    let mut ids: Vec<i32> = Vec::new();
    for k in 0..tally.len()
        invariant
            ids@.len() == k,
            forall|j: int| 0 <= j < k ==> ids@[j] == (#[trigger] tally@[j]).0,
    {
        ids.push(tally[k].0);
    }
    ids
}

/// `products[k]` is the first product with this id.
pub open spec fn is_first_product(products: Seq<Product>, id: i32, k: int) -> bool {
    &&& 0 <= k < products.len()
    &&& products[k].id == id
    &&& forall|j: int| 0 <= j < k ==> (#[trigger] products[j]).id != id
}

pub open spec fn has_product(products: Seq<Product>, id: i32) -> bool {
    exists|k: int| 0 <= k < products.len() && (#[trigger] products[k]).id == id
}

fn find_product(products: &Vec<Product>, id: i32) -> (r: Option<Product>)
    ensures
        match r {
            Some(p) => exists|k: int| is_first_product(products@, id, k) && p == products@[k],
            None => !has_product(products@, id),
        },
{
    for k in 0..products.len()
        invariant
            forall|j: int| 0 <= j < k ==> (#[trigger] products@[j]).id != id,
    {
        if products[k].id == id {
            let p = products[k].clone();
            assert(is_first_product(products@, id, k as int));
            return Some(p);
        }
    }
    None
}

/// The lines of the cart page: for each id of the tally, in order, its count
/// and the first of `products` with that id. `None` where an id has no
/// product (the page fails there).
pub fn cart_entries(tally: &Vec<(i32, i32)>, products: &Vec<Product>) -> (r: Option<Vec<CartEntry>>)
    ensures
        match r {
            Some(es) => es@.len() == tally@.len() && forall|k: int|
                0 <= k < es@.len() ==> (#[trigger] es@[k]).count == tally@[k].1 && exists|j: int|
                    is_first_product(products@, tally@[k].0, j) && es@[k].item == products@[j],
            None => exists|k: int|
                0 <= k < tally@.len() && !has_product(products@, (#[trigger] tally@[k]).0),
        },
{
    let mut es: Vec<CartEntry> = Vec::new();
    let n = tally.len();
    let mut k: usize = 0;
    while k < n
        invariant
            n == tally@.len(),
            k <= n,
            es@.len() == k,
            forall|i: int|
                0 <= i < k ==> (#[trigger] es@[i]).count == tally@[i].1 && exists|j: int|
                    is_first_product(products@, tally@[i].0, j) && es@[i].item == products@[j],
        decreases n - k,
    {
        let (id, count) = tally[k];
        match find_product(products, id) {
            Some(p) => {
                let ghost before = es@;
                es.push(CartEntry { count, item: p });
                assert forall|i: int|
                    0 <= i < k + 1 implies (#[trigger] es@[i]).count == tally@[i].1 && exists|
                    j: int,
                | is_first_product(products@, tally@[i].0, j) && es@[i].item == products@[j] by {
                    if i < k {
                        assert(es@[i] == before[i]);
                    }
                }
            },
            None => {
                assert(!has_product(products@, tally@[k as int].0));
                return None;
            },
        }
        k = k + 1;
    }
    Some(es)
}

/// `GET /products/delete_from_cart/<id>`, given the plain cookie `cart` if
/// set. With no cookie: "Cart is empty". Else one `id` is deleted from the
/// cart; an empty cart removes the cookie, any other sets it; then
/// "Successfully removed one item from cart" (whether or not `id` was there).
/// Each goes to the cart page. `None` where deleting fails (a piece it reads
/// is no `i32`).
pub fn delete_from_cart(id: i32, cart: Option<&str>) -> (r: Option<Reply>)
    ensures
        match cart {
            None => r matches Some(rep) && rep@ == (ReplyView {
                location: "/products/cart"@,
                flash: Some((FlashKind::Error, "Cart is empty"@)),
                cookies: Seq::empty(),
            }),
            Some(c) => match spec_remove_from_cart(c@, id) {
                None => r is None,
                Some(left) => r matches Some(rep) && rep@ == (ReplyView {
                    location: "/products/cart"@,
                    flash: Some((FlashKind::Success, "Successfully removed one item from cart"@)),
                    cookies: seq![
                        ChangeView {
                            name: cart_cookie(),
                            value: if left.len() == 0 {
                                None
                            } else {
                                Some(left)
                            },
                            private: false,
                        },
                    ],
                }),
            },
        },
{
    match cart {
        None => Some(
            flash_only("/products/cart", FlashKind::Error, "Cart is empty"),
        ),
        Some(c) => match remove_from_cart(c, id) {
            None => None,
            Some(left) => {
                let ghost left_text = left@;
                let mut cookies: Vec<CookieChange> = Vec::new();
                if left.as_str().is_empty() {
                    cookies.push(remove_plain("cart"));
                } else {
                    cookies.push(set_plain("cart", left));
                }
                assert(cookies@[0]@ == ChangeView {
                    name: cart_cookie(),
                    value: if left_text.len() == 0 {
                        None
                    } else {
                        Some(left_text)
                    },
                    private: false,
                });
                assert(crate::cookies::changes_view(cookies@) =~= seq![cookies@[0]@]);
                let r = flash_redirect(
                    "/products/cart",
                    FlashKind::Success,
                    "Successfully removed one item from cart",
                    cookies,
                );
                Some(r)
            },
        },
    }
}

/// The routes mounted at `/products`.
pub fn get_routes() -> (rs: Vec<RouteInfo>)
    ensures
        routes_view(rs@) == seq![
            (Method::Get, "/"@, "index"@),
            (Method::Get, "/list"@, "list"@),
            (Method::Get, "/to_cart/<id>"@, "to_cart"@),
            (Method::Get, "/cart"@, "cart"@),
            (Method::Get, "/delete_from_cart/<id>"@, "delete_from_cart"@),
        ],
{
    let mut rs = Vec::new();
    rs.push(route(Method::Get, "/", "index"));
    rs.push(route(Method::Get, "/list", "list"));
    rs.push(route(Method::Get, "/to_cart/<id>", "to_cart"));
    rs.push(route(Method::Get, "/cart", "cart"));
    rs.push(route(Method::Get, "/delete_from_cart/<id>", "delete_from_cart"));
    assert(routes_view(rs@) =~= seq![
        (Method::Get, "/"@, "index"@),
        (Method::Get, "/list"@, "list"@),
        (Method::Get, "/to_cart/<id>"@, "to_cart"@),
        (Method::Get, "/cart"@, "cart"@),
        (Method::Get, "/delete_from_cart/<id>"@, "delete_from_cart"@),
    ]);
    rs
}

/// The ids the cart page reads from a jar: no cart cookie is an empty cart.
pub open spec fn jar_cart_ids(jar: Jar) -> Option<Seq<i32>> {
    match read_plain(jar, cart_cookie()) {
        None => Some(Seq::<i32>::empty()),
        Some(c) => spec_cart_ids(c),
    }
}

/// The cart cookie of a jar, if any, is plain and a cart text: as this
/// library writes it.
pub open spec fn jar_cart_written(jar: Jar) -> bool {
    jar.contains_key(cart_cookie()) ==> !jar[cart_cookie()].private && is_cart_text(
        jar[cart_cookie()].value,
    )
}

/// Adding a product to the cart: the cart page then reads the ids it read
/// before with `id` added at the end, and the cookie is again as this library
/// writes it.
pub proof fn lemma_to_cart_adds(jar: Jar, id: i32, r: ReplyView)
    requires
        jar_cart_written(jar),
        r == (ReplyView {
            location: "/products/list"@,
            flash: None,
            cookies: seq![
                ChangeView {
                    name: cart_cookie(),
                    value: Some(spec_add_to_cart(read_plain(jar, cart_cookie()), id)),
                    private: false,
                },
            ],
        }),
    ensures
        jar_cart_written(apply_changes(jar, r.cookies)),
        jar_cart_ids(apply_changes(jar, r.cookies)) == match jar_cart_ids(jar) {
            Some(ids) => Some(ids.push(id)),
            None => None,
        },
{
    let c = read_plain(jar, cart_cookie());
    lemma_add_then_read(c, id);
    assert(r.cookies.drop_last() =~= Seq::<ChangeView>::empty());
    assert(apply_changes(jar, r.cookies.drop_last()) == jar);
    let after = apply_changes(jar, r.cookies);
    assert(after == crate::cookies::apply_change(jar, r.cookies[0]));
    assert(after == jar.insert(
        cart_cookie(),
        StoredCookie { value: spec_add_to_cart(c, id), private: false },
    ));
    if c is None {
        assert(Seq::<i32>::empty().push(id) =~= seq![id]);
    }
}

/// Deleting a product from a cart that the page can read: the page then reads
/// the ids it read before less one `id`, and the cookie (if any is left) is
/// again as this library writes it.
pub proof fn lemma_delete_from_cart_removes(jar: Jar, id: i32, r: ReplyView)
    requires
        jar_cart_written(jar),
        jar_cart_ids(jar) is Some,
        read_plain(jar, cart_cookie()) matches Some(c) && r == (ReplyView {
            location: "/products/cart"@,
            flash: Some((FlashKind::Success, "Successfully removed one item from cart"@)),
            cookies: seq![
                ChangeView {
                    name: cart_cookie(),
                    value: if spec_remove_from_cart(c, id)->0.len() == 0 {
                        None
                    } else {
                        Some(spec_remove_from_cart(c, id)->0)
                    },
                    private: false,
                },
            ],
        }),
    ensures
        jar_cart_written(apply_changes(jar, r.cookies)),
        jar_cart_ids(apply_changes(jar, r.cookies)) is Some,
        jar_cart_ids(apply_changes(jar, r.cookies))->0.to_multiset() == jar_cart_ids(
            jar,
        )->0.to_multiset().remove(id),
{
    let c = read_plain(jar, cart_cookie())->0;
    lemma_remove_then_read(c, id);
    let left = spec_remove_from_cart(c, id)->0;
    assert(r.cookies.drop_last() =~= Seq::<ChangeView>::empty());
    assert(apply_changes(jar, r.cookies.drop_last()) == jar);
    let after = apply_changes(jar, r.cookies);
    assert(after == crate::cookies::apply_change(jar, r.cookies[0]));
    if left.len() == 0 {
        assert(after == jar.remove(cart_cookie()));
        assert(crate::cart::fields(left) =~= seq![Seq::<char>::empty()]);
        assert(spec_cart_ids(left) == Some(Seq::<i32>::empty()));
    } else {
        assert(after == jar.insert(cart_cookie(), StoredCookie { value: left, private: false }));
    }
}

} // verus!
