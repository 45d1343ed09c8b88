use shop::cart::{add_to_cart, cart_counts, cart_ids, remove_from_cart};
use shop::cookies::CookieChange;
use shop::models::Product;
use shop::reply::FlashKind;
use shop::routes::products::{cart_entries, cart_tally, delete_from_cart, tally_ids, to_cart};

fn product(id: i32, name: &str) -> Product {
    Product {
        id,
        name: name.to_string(),
        image: format!("{}.png", name),
        description: String::new(),
        price: 100 * id,
    }
}

fn only_change(cookies: &Vec<CookieChange>) -> (&str, Option<&str>, bool) {
    assert_eq!(cookies.len(), 1);
    let c = &cookies[0];
    (c.name.as_str(), c.value.as_deref(), c.private)
}

#[test]
fn cart_ids_reads_the_added_ids() {
    assert_eq!(cart_ids("3,1,3,"), Some(vec![3, 1, 3]));
    assert_eq!(cart_ids(""), Some(vec![]));
    assert_eq!(cart_ids("-4,"), Some(vec![-4]));
}

#[test]
fn cart_ids_leaves_out_the_last_piece() {
    assert_eq!(cart_ids("1,2"), Some(vec![1]));
    assert_eq!(cart_ids("7"), Some(vec![]));
    assert_eq!(cart_ids("1,x"), Some(vec![1]));
}

#[test]
fn cart_ids_fails_on_a_piece_that_is_no_number() {
    assert_eq!(cart_ids("1,x,"), None);
    assert_eq!(cart_ids(",,"), None);
}

#[test]
fn add_to_cart_appends_id_and_comma() {
    assert_eq!(add_to_cart(None, 5), "5,");
    assert_eq!(add_to_cart(Some("1,"), -2), "1,-2,");
    assert_eq!(add_to_cart(Some(""), 12), "12,");
}

#[test]
fn add_then_read_adds_the_id() {
    let mut cart: Option<String> = None;
    for id in [4, 2, 4] {
        cart = Some(add_to_cart(cart.as_deref(), id));
    }
    assert_eq!(cart.as_deref(), Some("4,2,4,"));
    assert_eq!(cart_ids(cart.as_deref().unwrap()), Some(vec![4, 2, 4]));
}

#[test]
fn remove_from_cart_drops_the_last_match_and_reverses() {
    assert_eq!(remove_from_cart("1,2,3,", 2).as_deref(), Some("3,1,"));
    assert_eq!(remove_from_cart("1,2,1,", 1).as_deref(), Some("2,1,"));
    assert_eq!(remove_from_cart("1,2,", 5).as_deref(), Some("2,1,"));
    assert_eq!(remove_from_cart("5,", 5).as_deref(), Some(""));
    assert_eq!(remove_from_cart("", 5).as_deref(), Some(""));
}

#[test]
fn remove_from_cart_reads_only_until_the_match() {
    assert_eq!(remove_from_cart("x,2,", 2).as_deref(), Some("x,"));
    assert_eq!(remove_from_cart("2,x,", 2), None);
}

#[test]
fn add_then_remove_gives_back_the_same_ids() {
    let added = add_to_cart(Some("3,1,"), 7);
    let left = remove_from_cart(&added, 7).unwrap();
    let mut ids = cart_ids(&left).unwrap();
    ids.sort();
    assert_eq!(ids, vec![1, 3]);
}

#[test]
fn cart_counts_tallies_in_first_order() {
    assert_eq!(cart_counts(&vec![3, 1, 3, 2, 1, 3]).unwrap(), vec![(3, 3), (1, 2), (2, 1)]);
    assert_eq!(cart_counts(&vec![]).unwrap(), vec![]);
}

#[test]
fn cart_tally_reads_the_cookie() {
    assert_eq!(cart_tally(None), Some(vec![]));
    assert_eq!(cart_tally(Some("2,2,5,")), Some(vec![(2, 2), (5, 1)]));
    assert_eq!(cart_tally(Some("2,q,")), None);
    assert_eq!(tally_ids(&vec![(2, 2), (5, 1)]), vec![2, 5]);
}

#[test]
fn cart_entries_pairs_counts_with_products() {
    let products = vec![product(5, "five"), product(2, "two"), product(2, "second two")];
    let entries = cart_entries(&vec![(2, 2), (5, 1)], &products).unwrap();
    assert_eq!(entries.len(), 2);
    assert_eq!(entries[0].count, 2);
    assert_eq!(entries[0].item.name, "two");
    assert_eq!(entries[0].item.price, 200);
    assert_eq!(entries[1].count, 1);
    assert_eq!(entries[1].item.name, "five");
    assert_eq!(entries[1].item.image, "five.png");
}

#[test]
fn cart_entries_fails_on_a_missing_product() {
    let products = vec![product(5, "five")];
    assert!(cart_entries(&vec![(5, 1), (9, 1)], &products).is_none());
}

#[test]
fn to_cart_sets_the_plain_cart_cookie() {
    let r = to_cart(8, Some("1,"));
    assert_eq!(r.location, "/products/list");
    assert!(r.flash.is_none());
    assert_eq!(only_change(&r.cookies), ("cart", Some("1,8,"), false));
    let r = to_cart(3, None);
    assert_eq!(only_change(&r.cookies), ("cart", Some("3,"), false));
}

#[test]
fn delete_from_cart_without_cookie_says_cart_is_empty() {
    let r = delete_from_cart(1, None).unwrap();
    assert_eq!(r.location, "/products/cart");
    let f = r.flash.unwrap();
    assert!(f.kind == FlashKind::Error);
    assert_eq!(f.message, "Cart is empty");
    assert!(r.cookies.is_empty());
}

#[test]
fn delete_from_cart_sets_or_removes_the_cookie() {
    let r = delete_from_cart(2, Some("1,2,")).unwrap();
    assert_eq!(r.location, "/products/cart");
    let f = r.flash.as_ref().unwrap();
    assert!(f.kind == FlashKind::Success);
    assert_eq!(f.message, "Successfully removed one item from cart");
    assert_eq!(only_change(&r.cookies), ("cart", Some("1,"), false));

    let r = delete_from_cart(2, Some("2,")).unwrap();
    assert_eq!(only_change(&r.cookies), ("cart", None, false));

    let r = delete_from_cart(9, Some("2,")).unwrap();
    assert_eq!(r.flash.unwrap().message, "Successfully removed one item from cart");
    assert_eq!(only_change(&r.cookies), ("cart", Some("2,"), false));
}

#[test]
fn delete_from_cart_fails_on_a_bad_piece() {
    assert!(delete_from_cart(2, Some("2,oops,")).is_none());
}

#[test]
fn tally_counts_every_id_once() {
    let ids = cart_ids("4,4,9,4,1,9,").unwrap();
    let t = cart_counts(&ids).unwrap();
    let total: i32 = t.iter().map(|e| e.1).sum();
    assert_eq!(total as usize, ids.len());
    assert_eq!(t, vec![(4, 3), (9, 2), (1, 1)]);
}
