//! The shopping cart, kept in the plain cookie `cart` as the ids of the
//! products added, each followed by a comma (`"3,1,3,"`).
//!
//! Reading the cart splits the text at commas and leaves out the last piece
//! (the empty text after the final comma); every other piece must read as an
//! `i32`.

use vstd::prelude::*;
use vstd::multiset::Multiset;
use crate::text::{chars_of, i32_text, i32_to_string, lemma_i32_text_parses, parse_i32_in, spec_parse_i32};

verus! {

broadcast use vstd::seq_lib::group_seq_properties;

/// The pieces of `s` between commas, as `str::split(',')` gives them; there is
/// always at least one.
pub open spec fn fields(s: Seq<char>) -> Seq<Seq<char>>
    decreases s.len(),
{
    if s.len() == 0 {
        seq![Seq::<char>::empty()]
    } else {
        let f = fields(s.drop_last());
        if s.last() == ',' {
            f.push(Seq::<char>::empty())
        } else {
            f.update(f.len() - 1, f.last().push(s.last()))
        }
    }
}

/// The pieces of a cart cookie that name products: all but the last field.
pub open spec fn cart_items(s: Seq<char>) -> Seq<Seq<char>> {
    fields(s).drop_last()
}

/// Reads every piece as an `i32`; `None` as soon as one does not read.
pub open spec fn parse_all(items: Seq<Seq<char>>) -> Option<Seq<i32>>
    decreases items.len(),
{
    if items.len() == 0 {
        Some(Seq::<i32>::empty())
    } else {
        match (parse_all(items.drop_last()), spec_parse_i32(items.last())) {
            (Some(ids), Some(id)) => Some(ids.push(id)),
            _ => None,
        }
    }
}

/// The product ids that a cart cookie holds, in the order they were added.
pub open spec fn spec_cart_ids(s: Seq<char>) -> Option<Seq<i32>> {
    parse_all(cart_items(s))
}

/// A cart cookie as this library writes it: empty, or ending in a comma.
pub open spec fn is_cart_text(s: Seq<char>) -> bool {
    s.len() == 0 || s.last() == ','
}

/// The cart text after one more product: the old text, the id, a comma.
pub open spec fn spec_add_to_cart(cart: Option<Seq<char>>, id: i32) -> Seq<char> {
    match cart {
        Some(c) => c + i32_text(id) + seq![','],
        None => i32_text(id) + seq![','],
    }
}

pub proof fn lemma_fields_nonempty(s: Seq<char>)
    ensures
        fields(s).len() >= 1,
    decreases s.len(),
{
    if s.len() > 0 {
        lemma_fields_nonempty(s.drop_last());
    }
}

/// No field holds a comma.
pub proof fn lemma_fields_no_comma(s: Seq<char>)
    ensures
        forall|k: int| 0 <= k < fields(s).len() ==> !(#[trigger] fields(s)[k]).contains(','),
    decreases s.len(),
{
    lemma_fields_nonempty(s);
    if s.len() > 0 {
        lemma_fields_no_comma(s.drop_last());
        lemma_fields_nonempty(s.drop_last());
        let f = fields(s.drop_last());
        if s.last() != ',' {
            assert forall|k: int| 0 <= k < fields(s).len() implies !(
            #[trigger] fields(s)[k]).contains(',') by {
                if k == f.len() - 1 {
                    let g = f.last().push(s.last());
                    if g.contains(',') {
                        let j = choose|j: int| 0 <= j < g.len() && g[j] == ',';
                        if j < g.len() - 1 {
                            assert(f.last()[j] == ',');
                            assert(f[f.len() - 1].contains(','));
                        }
                    }
                } else {
                    assert(fields(s)[k] == f[k]);
                }
            }
        }
    }
}

/// Text without a comma is one field.
proof fn lemma_fields_of_plain(t: Seq<char>)
    requires
        !t.contains(','),
    ensures
        fields(t) == seq![t],
    decreases t.len(),
{
    if t.len() > 0 {
        let u = t.drop_last();
        assert(!u.contains(',')) by {
            if u.contains(',') {
                let j = choose|j: int| 0 <= j < u.len() && u[j] == ',';
                assert(t[j] == ',');
            }
        }
        lemma_fields_of_plain(u);
        assert(t.last() != ',') by {
            assert(t[t.len() - 1] == t.last());
        }
        assert(u.push(t.last()) =~= t);
        assert(fields(t) =~= seq![t]);
    } else {
        assert(fields(t) =~= seq![t]);
    }
}

/// Splitting text that follows a comma (or starts the text) splits the two
/// parts apart.
proof fn lemma_fields_append(a: Seq<char>, b: Seq<char>)
    requires
        is_cart_text(a),
    ensures
        fields(a + b) == fields(a).drop_last() + fields(b),
    decreases b.len(),
{
    lemma_fields_nonempty(a);
    lemma_fields_nonempty(b);
    if b.len() == 0 {
        assert(a + b =~= a);
        if a.len() == 0 {
            assert(fields(a).drop_last() + fields(b) =~= fields(a));
        } else {
            assert(fields(a) == fields(a.drop_last()).push(Seq::<char>::empty()));
            assert(fields(a).drop_last() + fields(b) =~= fields(a));
        }
    } else {
        let b0 = b.drop_last();
        lemma_fields_append(a, b0);
        lemma_fields_nonempty(b0);
        assert((a + b).drop_last() =~= a + b0);
        assert((a + b).last() == b.last());
        let p = fields(a).drop_last();
        let q = fields(b0);
        if b.last() == ',' {
            assert((p + q).push(Seq::<char>::empty()) =~= p + q.push(Seq::<char>::empty()));
        } else {
            let pq = p + q;
            assert(pq.update(pq.len() - 1, pq.last().push(b.last())) =~= p + q.update(
                q.len() - 1,
                q.last().push(b.last()),
            ));
        }
    }
}

proof fn lemma_parse_all_push(items: Seq<Seq<char>>, x: Seq<char>)
    ensures
        parse_all(items.push(x)) == match (parse_all(items), spec_parse_i32(x)) {
            (Some(ids), Some(id)) => Some(ids.push(id)),
            _ => None::<Seq<i32>>,
        },
{
    assert(items.push(x).drop_last() =~= items);
}

/// Adding a product to a cart cookie that this library wrote adds its id at
/// the end of the ids read back, and the new text is again a cart text.
pub proof fn lemma_add_then_read(cart: Option<Seq<char>>, id: i32)
    requires
        cart matches Some(c) ==> is_cart_text(c),
    ensures
        spec_cart_ids(spec_add_to_cart(cart, id)) == match cart {
            Some(c) => match spec_cart_ids(c) {
                Some(ids) => Some(ids.push(id)),
                None => None,
            },
            None => Some(seq![id]),
        },
        is_cart_text(spec_add_to_cart(cart, id)),
{
    let c = match cart {
        Some(c) => c,
        None => Seq::<char>::empty(),
    };
    let t = i32_text(id);
    lemma_i32_text_parses(id);
    let tail = t + seq![','];
    assert(spec_add_to_cart(cart, id) =~= c + tail);
    lemma_fields_append(c, tail);
    lemma_fields_of_plain(t);
    assert(tail.drop_last() =~= t);
    assert(fields(tail) =~= seq![t, Seq::<char>::empty()]);
    lemma_fields_nonempty(c);
    let items = fields(c).drop_last();
    assert(cart_items(c + tail) =~= items.push(t));
    lemma_parse_all_push(items, t);
    if cart is None {
        assert(fields(c) =~= seq![Seq::<char>::empty()]);
        assert(items =~= Seq::<Seq<char>>::empty());
        assert(parse_all(items) == Some(Seq::<i32>::empty()));
        assert(Seq::<i32>::empty().push(id) =~= seq![id]);
    }
    assert((c + tail).last() == ',');
}

/// Where each piece of a cart text starts and ends in `v` (the pieces between
/// commas, with the last one left out).
fn cart_item_bounds(v: &Vec<char>) -> (b: Vec<(usize, usize)>)
    ensures
        b@.len() == cart_items(v@).len(),
        forall|k: int|
            0 <= k < b@.len() ==> {
                &&& (#[trigger] b@[k]).0 <= b@[k].1 <= v@.len()
                &&& v@.subrange(b@[k].0 as int, b@[k].1 as int) == cart_items(v@)[k]
            },
{
    let mut b: Vec<(usize, usize)> = Vec::new();
    let mut start: usize = 0;
    let n = v.len();
    for i in 0..n
        invariant
            n == v@.len(),
            start <= i,
            b@.len() + 1 == fields(v@.take(i as int)).len(),
            v@.subrange(start as int, i as int) == fields(v@.take(i as int)).last(),
            forall|k: int|
                0 <= k < b@.len() ==> {
                    &&& (#[trigger] b@[k]).0 <= b@[k].1 <= i
                    &&& v@.subrange(b@[k].0 as int, b@[k].1 as int) == fields(v@.take(i as int))[k]
                },
    {
        proof {
            lemma_fields_nonempty(v@.take(i as int));
        }
        let ghost f = fields(v@.take(i as int));
        assert(v@.take(i + 1).drop_last() =~= v@.take(i as int));
        assert(v@.take(i + 1).last() == v@[i as int]);
        if v[i] == ',' {
            b.push((start, i));
            start = i + 1;
            assert(v@.subrange(start as int, (i + 1) as int) =~= Seq::<char>::empty());
        } else {
            assert(v@.subrange(start as int, (i + 1) as int) =~= v@.subrange(
                start as int,
                i as int,
            ).push(v@[i as int]));
        }
    }
    assert(v@.take(n as int) =~= v@);
    b
}

/// The product ids in a cart cookie, in the order added; `None` where a
/// piece does not read as an `i32` (where reading the cart fails).
pub fn cart_ids(cart: &str) -> (r: Option<Vec<i32>>)
    ensures
        match r {
            Some(ids) => spec_cart_ids(cart@) == Some(ids@),
            None => spec_cart_ids(cart@) is None,
        },
{
    let v = chars_of(cart);
    let b = cart_item_bounds(&v);
    let ghost items = cart_items(v@);
    let mut ids: Vec<i32> = Vec::new();
    for k in 0..b.len()
        invariant
            b@.len() == items.len(),
            v@ == cart@,
            items == cart_items(v@),
            forall|j: int|
                0 <= j < b@.len() ==> {
                    &&& (#[trigger] b@[j]).0 <= b@[j].1 <= v@.len()
                    &&& v@.subrange(b@[j].0 as int, b@[j].1 as int) == items[j]
                },
            parse_all(items.take(k as int)) == Some(ids@),
    {
        let (s, e) = b[k];
        assert(items.take(k + 1).drop_last() =~= items.take(k as int));
        assert(items.take(k + 1).last() == items[k as int]);
        match parse_i32_in(&v, s, e) {
            Some(id) => {
                ids.push(id);
            },
            None => {
                proof {
                    lemma_parse_all_prefix(items, k + 1);
                }
                return None;
            },
        }
    }
    assert(items.take(b.len() as int) =~= items);
    Some(ids)
}

/// Once a prefix fails to read, the whole sequence fails.
proof fn lemma_parse_all_prefix(items: Seq<Seq<char>>, k: int)
    requires
        0 <= k <= items.len(),
        parse_all(items.take(k)) is None,
    ensures
        parse_all(items) is None,
    decreases items.len() - k,
{
    if k < items.len() {
        assert(items.take(k + 1).drop_last() =~= items.take(k));
        lemma_parse_all_prefix(items, k + 1);
    } else {
        assert(items.take(k) =~= items);
    }
}

/// The cart text after adding product `id`: the old text (if there is a cart
/// cookie), the id in decimal, and a comma.
pub fn add_to_cart(cart: Option<&str>, id: i32) -> (r: String)
    ensures
        r@ == spec_add_to_cart(
            match cart {
                Some(c) => Some(c@),
                None => None,
            },
            id,
        ),
{
    let mut out = String::new();
    match cart {
        Some(c) => out.append(c),
        None => {},
    }
    let t = i32_to_string(id);
    out.append(t.as_str());
    proof { reveal_strlit(","); }
    out.append(",");
    out
}


/// Deleting walks the pieces from the last to the first, reading each as an
/// `i32` until one reads as `id`; that one is left out and the walk stops
/// reading. It gives the pieces kept, in the order walked (last piece first),
/// or `None` where a piece that it reads fails to read.
pub open spec fn remove_walk(items: Seq<Seq<char>>, id: i32) -> Option<Seq<Seq<char>>>
    decreases items.len(),
{
    if items.len() == 0 {
        Some(Seq::<Seq<char>>::empty())
    } else {
        let x = items.last();
        match spec_parse_i32(x) {
            None => None,
            Some(v) => if v == id {
                Some(items.drop_last().reverse())
            } else {
                match remove_walk(items.drop_last(), id) {
                    Some(kept) => Some(seq![x] + kept),
                    None => None,
                }
            },
        }
    }
}

/// Each piece followed by a comma, in order.
pub open spec fn join_terminated(items: Seq<Seq<char>>) -> Seq<char>
    decreases items.len(),
{
    if items.len() == 0 {
        Seq::<char>::empty()
    } else {
        join_terminated(items.drop_last()) + items.last() + seq![',']
    }
}

/// The cart text after deleting one product `id`: the pieces kept, in the
/// order walked, each followed by a comma; `None` where the walk fails.
pub open spec fn spec_remove_from_cart(cart: Seq<char>, id: i32) -> Option<Seq<char>> {
    match remove_walk(cart_items(cart), id) {
        Some(kept) => Some(join_terminated(kept)),
        None => None,
    }
}

pub open spec fn all_parse(items: Seq<Seq<char>>) -> bool {
    forall|k: int| 0 <= k < items.len() ==> (#[trigger] spec_parse_i32(items[k])) is Some
}

pub open spec fn no_commas(items: Seq<Seq<char>>) -> bool {
    forall|k: int| 0 <= k < items.len() ==> !(#[trigger] items[k]).contains(',')
}

/// The ids of pieces that all read.
pub open spec fn ids_of(items: Seq<Seq<char>>) -> Seq<i32> {
    items.map_values(|x: Seq<char>| spec_parse_i32(x)->0)
}

proof fn lemma_parse_all_ids(items: Seq<Seq<char>>)
    ensures
        parse_all(items) is Some <==> all_parse(items),
        all_parse(items) ==> parse_all(items) == Some(ids_of(items)),
    decreases items.len(),
{
    if items.len() > 0 {
        let pre = items.drop_last();
        lemma_parse_all_ids(pre);
        if all_parse(items) {
            assert(all_parse(pre)) by {
                assert forall|k: int| 0 <= k < pre.len() implies (#[trigger] spec_parse_i32(
                    pre[k],
                )) is Some by {
                    assert(pre[k] == items[k]);
                }
            }
            assert(spec_parse_i32(items[items.len() - 1]) is Some);
            assert(ids_of(pre).push(spec_parse_i32(items.last())->0) =~= ids_of(items));
        } else {
            let k = choose|k: int| 0 <= k < items.len() && (spec_parse_i32(items[k]) is None);
            if k < items.len() - 1 {
                assert(pre[k] == items[k]);
                assert(!all_parse(pre));
            }
        }
    } else {
        assert(ids_of(items) =~= Seq::<i32>::empty());
    }
}

proof fn lemma_ids_of_reverse(items: Seq<Seq<char>>)
    ensures
        ids_of(items.reverse()) == ids_of(items).reverse(),
{
    assert(ids_of(items.reverse()) =~= ids_of(items).reverse());
}

/// When every piece reads, deleting keeps every piece but one that reads as
/// `id` (if any does): the ids kept are the ids held, less one `id`.
proof fn lemma_remove_walk(items: Seq<Seq<char>>, id: i32)
    requires
        all_parse(items),
        no_commas(items),
    ensures
        remove_walk(items, id) is Some,
        all_parse(remove_walk(items, id)->0),
        no_commas(remove_walk(items, id)->0),
        ids_of(remove_walk(items, id)->0).to_multiset() == ids_of(items).to_multiset().remove(id),
    decreases items.len(),
{
    broadcast use vstd::multiset::group_multiset_axioms;
    broadcast use vstd::seq_lib::to_multiset_build;

    if items.len() == 0 {
        assert(ids_of(items) =~= Seq::<i32>::empty());
        assert(ids_of(items).to_multiset() =~= Multiset::<i32>::empty()) by {
            ids_of(items).to_multiset_ensures();
            assert(ids_of(items).to_multiset().len() == 0);
        }
        assert(Multiset::<i32>::empty().remove(id) =~= Multiset::<i32>::empty());
        assert(ids_of(Seq::<Seq<char>>::empty()) =~= Seq::<i32>::empty());
    } else {
        let pre = items.drop_last();
        let x = items.last();
        assert(spec_parse_i32(items[items.len() - 1]) is Some);
        let v = spec_parse_i32(x)->0;
        assert(all_parse(pre)) by {
            assert forall|k: int| 0 <= k < pre.len() implies (#[trigger] spec_parse_i32(
                pre[k],
            )) is Some by {
                assert(pre[k] == items[k]);
            }
        }
        assert(no_commas(pre)) by {
            assert forall|k: int| 0 <= k < pre.len() implies !(#[trigger] pre[k]).contains(
                ',',
            ) by {
                assert(pre[k] == items[k]);
            }
        }
        assert(ids_of(items) =~= ids_of(pre).push(v));
        let m = ids_of(pre).to_multiset();
        if v == id {
            let kept = pre.reverse();
            lemma_ids_of_reverse(pre);
            ids_of(pre).lemma_reverse_to_multiset();
            assert(all_parse(kept)) by {
                assert forall|k: int| 0 <= k < kept.len() implies (#[trigger] spec_parse_i32(
                    kept[k],
                )) is Some by {
                    assert(kept[k] == pre[pre.len() - 1 - k]);
                }
            }
            assert(no_commas(kept)) by {
                assert forall|k: int| 0 <= k < kept.len() implies !(#[trigger] kept[k]).contains(
                    ',',
                ) by {
                    assert(kept[k] == pre[pre.len() - 1 - k]);
                }
            }
            assert(m.insert(id).remove(id) =~= m);
        } else {
            lemma_remove_walk(pre, id);
            let k0 = remove_walk(pre, id)->0;
            let kept = seq![x] + k0;
            assert(all_parse(kept)) by {
                assert forall|k: int| 0 <= k < kept.len() implies (#[trigger] spec_parse_i32(
                    kept[k],
                )) is Some by {
                    if k > 0 {
                        assert(kept[k] == k0[k - 1]);
                    }
                }
            }
            assert(no_commas(kept)) by {
                assert forall|k: int| 0 <= k < kept.len() implies !(#[trigger] kept[k]).contains(
                    ',',
                ) by {
                    if k > 0 {
                        assert(kept[k] == k0[k - 1]);
                    }
                }
            }
            assert(ids_of(kept) =~= seq![v] + ids_of(k0));
            vstd::seq_lib::lemma_multiset_commutative(seq![v], ids_of(k0));
            vstd::seq_lib::lemma_multiset_commutative(ids_of(k0), seq![v]);
            assert(ids_of(k0) + seq![v] =~= ids_of(k0).push(v));
            assert(ids_of(kept).to_multiset() =~= m.insert(v).remove(id));
        }
    }
}

/// Text written as pieces followed by commas splits back into those pieces.
proof fn lemma_join_then_split(items: Seq<Seq<char>>)
    requires
        no_commas(items),
    ensures
        cart_items(join_terminated(items)) == items,
        is_cart_text(join_terminated(items)),
    decreases items.len(),
{
    if items.len() == 0 {
        assert(fields(Seq::<char>::empty()) =~= seq![Seq::<char>::empty()]);
        assert(cart_items(join_terminated(items)) =~= items);
    } else {
        let pre = items.drop_last();
        let x = items.last();
        assert(no_commas(pre)) by {
            assert forall|k: int| 0 <= k < pre.len() implies !(#[trigger] pre[k]).contains(
                ',',
            ) by {
                assert(pre[k] == items[k]);
            }
        }
        lemma_join_then_split(pre);
        let j = join_terminated(pre);
        lemma_fields_nonempty(j);
        let tail = x + seq![','];
        assert(join_terminated(items) =~= j + tail);
        lemma_fields_append(j, tail);
        assert(!items[items.len() - 1].contains(','));
        lemma_fields_of_plain(x);
        assert(tail.drop_last() =~= x);
        assert(fields(tail) =~= seq![x, Seq::<char>::empty()]);
        assert(cart_items(j + tail) =~= items);
        assert((j + tail).last() == ',');
    }
}

/// Deleting from a cart whose ids all read never fails; the text left is a
/// cart text again, and its ids are those held less one `id` (none less when
/// `id` was not there).
pub proof fn lemma_remove_then_read(cart: Seq<char>, id: i32)
    requires
        spec_cart_ids(cart) is Some,
    ensures
        spec_remove_from_cart(cart, id) is Some,
        is_cart_text(spec_remove_from_cart(cart, id)->0),
        spec_cart_ids(spec_remove_from_cart(cart, id)->0) is Some,
        spec_cart_ids(spec_remove_from_cart(cart, id)->0)->0.to_multiset() == spec_cart_ids(
            cart,
        )->0.to_multiset().remove(id),
{
    let items = cart_items(cart);
    lemma_parse_all_ids(items);
    lemma_fields_no_comma(cart);
    lemma_fields_nonempty(cart);
    assert(no_commas(items)) by {
        assert forall|k: int| 0 <= k < items.len() implies !(#[trigger] items[k]).contains(
            ',',
        ) by {
            assert(items[k] == fields(cart)[k]);
        }
    }
    lemma_remove_walk(items, id);
    let kept = remove_walk(items, id)->0;
    lemma_join_then_split(kept);
    lemma_parse_all_ids(kept);
}

/// Adding a product and then deleting it gives back the ids the cart held.
pub proof fn lemma_add_then_remove(cart: Option<Seq<char>>, id: i32)
    requires
        cart matches Some(c) ==> is_cart_text(c) && spec_cart_ids(c) is Some,
    ensures
        spec_remove_from_cart(spec_add_to_cart(cart, id), id) is Some,
        spec_cart_ids(spec_remove_from_cart(spec_add_to_cart(cart, id), id)->0) is Some,
        spec_cart_ids(spec_remove_from_cart(spec_add_to_cart(cart, id), id)->0)->0.to_multiset()
            == match cart {
            Some(c) => spec_cart_ids(c)->0.to_multiset(),
            None => Multiset::<i32>::empty(),
        },
{
    broadcast use vstd::multiset::group_multiset_axioms;
    broadcast use vstd::seq_lib::to_multiset_build;

    lemma_add_then_read(cart, id);
    let added = spec_add_to_cart(cart, id);
    lemma_remove_then_read(added, id);
    let before = match cart {
        Some(c) => spec_cart_ids(c)->0,
        None => Seq::<i32>::empty(),
    };
    if cart is None {
        assert(seq![id] =~= Seq::<i32>::empty().push(id));
        assert(Seq::<i32>::empty().to_multiset() =~= Multiset::<i32>::empty()) by {
            Seq::<i32>::empty().to_multiset_ensures();
        }
    }
    assert(spec_cart_ids(added)->0 == before.push(id));
    assert(before.to_multiset().insert(id).remove(id) =~= before.to_multiset());
}

/// The text of the pieces `bounds` of `cart`, each followed by a comma.
fn join_pieces(cart: &str, bounds: &Vec<(usize, usize)>, pieces: Ghost<Seq<Seq<char>>>) -> (r:
    String)
    requires
        bounds@.len() == pieces@.len(),
        forall|j: int|
            0 <= j < bounds@.len() ==> {
                &&& (#[trigger] bounds@[j]).0 <= bounds@[j].1 <= cart@.len()
                &&& cart@.subrange(bounds@[j].0 as int, bounds@[j].1 as int) == pieces@[j]
            },
    ensures
        r@ == join_terminated(pieces@),
{
    let mut out = String::new();
    proof { reveal_strlit(","); }
    for j in 0..bounds.len()
        invariant
            bounds@.len() == pieces@.len(),
            forall|j: int|
                0 <= j < bounds@.len() ==> {
                    &&& (#[trigger] bounds@[j]).0 <= bounds@[j].1 <= cart@.len()
                    &&& cart@.subrange(bounds@[j].0 as int, bounds@[j].1 as int) == pieces@[j]
                },
            out@ == join_terminated(pieces@.take(j as int)),
    {
        let (s, e) = bounds[j];
        let piece = cart.substring_char(s, e);
        out.append(piece);
        proof { reveal_strlit(","); }
        out.append(",");
        assert(pieces@.take(j + 1).drop_last() =~= pieces@.take(j as int));
        assert(pieces@.take(j + 1).last() == pieces@[j as int]);
    }
    assert(pieces@.take(bounds.len() as int) =~= pieces@);
    out
}

/// The cart text after deleting one product `id`, as deleting from the cart
/// page writes it; `None` where a piece that it reads fails to read.
pub fn remove_from_cart(cart: &str, id: i32) -> (r: Option<String>)
    ensures
        match r {
            Some(c) => spec_remove_from_cart(cart@, id) == Some(c@),
            None => spec_remove_from_cart(cart@, id) is None,
        },
{
    let v = chars_of(cart);
    let b = cart_item_bounds(&v);
    let ghost items = cart_items(v@);
    let mut kept: Vec<(usize, usize)> = Vec::new();
    let ghost mut kept_items: Seq<Seq<char>> = Seq::empty();
    let mut removed = false;
    let mut k = b.len();
    while k > 0
        invariant
            k <= b@.len(),
            b@.len() == items.len(),
            v@ == cart@,
            items == cart_items(v@),
            forall|j: int|
                0 <= j < b@.len() ==> {
                    &&& (#[trigger] b@[j]).0 <= b@[j].1 <= v@.len()
                    &&& v@.subrange(b@[j].0 as int, b@[j].1 as int) == items[j]
                },
            kept@.len() == kept_items.len(),
            forall|j: int|
                0 <= j < kept@.len() ==> {
                    &&& (#[trigger] kept@[j]).0 <= kept@[j].1 <= v@.len()
                    &&& v@.subrange(kept@[j].0 as int, kept@[j].1 as int) == kept_items[j]
                },
            !removed ==> remove_walk(items, id) == match remove_walk(items.take(k as int), id) {
                Some(rest) => Some(kept_items + rest),
                None => None,
            },
            removed ==> remove_walk(items, id) == Some(kept_items + items.take(k as int).reverse()),
        decreases k,
    {
        k = k - 1;
        let (s, e) = b[k];
        let ghost x = items[k as int];
        assert(items.take(k + 1).drop_last() =~= items.take(k as int));
        assert(items.take(k + 1).last() == x);
        let mut keep = true;
        if !removed {
            match parse_i32_in(&v, s, e) {
                None => {
                    return None;
                },
                Some(n) => {
                    if n == id {
                        removed = true;
                        keep = false;
                    }
                },
            }
        } else {
            assert(items.take(k + 1).reverse() =~= seq![x] + items.take(k as int).reverse());
        }
        if keep {
            kept.push((s, e));
            proof {
                let old_kept = kept_items;
                kept_items = kept_items.push(x);
                assert(old_kept + (seq![x] + items.take(k as int).reverse()) =~= kept_items
                    + items.take(k as int).reverse());
                assert forall|rest: Seq<Seq<char>>| old_kept + (seq![x] + rest) =~= kept_items
                    + rest by {}
            }
        }
    }
    proof {
        assert(items.take(0) =~= Seq::<Seq<char>>::empty());
        assert(kept_items + Seq::<Seq<char>>::empty() =~= kept_items);
        assert(Seq::<Seq<char>>::empty().reverse() =~= Seq::<Seq<char>>::empty());
    }
    let out = join_pieces(cart, &kept, Ghost(kept_items));
    Some(out)
}


/// The ids of a cart, each once, in the order of their first appearance.
pub open spec fn distinct_ids(ids: Seq<i32>) -> Seq<i32>
    decreases ids.len(),
{
    if ids.len() == 0 {
        Seq::<i32>::empty()
    } else {
        let d = distinct_ids(ids.drop_last());
        if d.contains(ids.last()) {
            d
        } else {
            d.push(ids.last())
        }
    }
}

/// How many times `x` stands in `ids`.
pub open spec fn occurrences(ids: Seq<i32>, x: i32) -> nat {
    ids.to_multiset().count(x)
}

/// The tally of a cart: each id held, once, with how many times it is held.
pub open spec fn is_tally_of(t: Seq<(i32, i32)>, ids: Seq<i32>) -> bool {
    &&& t.len() == distinct_ids(ids).len()
    &&& forall|k: int|
        0 <= k < t.len() ==> (#[trigger] t[k]).0 == distinct_ids(ids)[k] && t[k].1 == occurrences(
            ids,
            t[k].0,
        )
}

proof fn lemma_occurrences_push(ids: Seq<i32>, x: i32, y: i32)
    ensures
        occurrences(ids.push(x), y) == occurrences(ids, y) + (if x == y { 1nat } else { 0nat }),
{
    broadcast use vstd::multiset::group_multiset_axioms;
    broadcast use vstd::seq_lib::to_multiset_build;

}

proof fn lemma_occurrences_bound(ids: Seq<i32>, y: i32)
    ensures
        occurrences(ids, y) <= ids.len(),
        occurrences(ids, y) > 0 <==> ids.contains(y),
    decreases ids.len(),
{
    broadcast use vstd::multiset::group_multiset_axioms;

    ids.to_multiset_ensures();
    if ids.len() > 0 {
        lemma_occurrences_bound(ids.drop_last(), y);
        assert(ids.drop_last().push(ids.last()) =~= ids);
        lemma_occurrences_push(ids.drop_last(), ids.last(), y);
    } else {
        assert(ids.to_multiset() =~= Multiset::<i32>::empty());
    }
}

/// The ids listed once each are distinct and are exactly the ids held.
pub proof fn lemma_distinct_ids(ids: Seq<i32>)
    ensures
        distinct_ids(ids).no_duplicates(),
        forall|x: i32| distinct_ids(ids).contains(x) <==> ids.contains(x),
    decreases ids.len(),
{
    if ids.len() > 0 {
        let pre = ids.drop_last();
        lemma_distinct_ids(pre);
        assert(pre.push(ids.last()) =~= ids);
        assert forall|x: i32| distinct_ids(ids).contains(x) <==> ids.contains(x) by {
            if ids.contains(x) && x != ids.last() {
                let k = choose|k: int| 0 <= k < ids.len() && ids[k] == x;
                assert(pre[k] == x);
            }
            if pre.contains(x) {
                let k = choose|k: int| 0 <= k < pre.len() && pre[k] == x;
                assert(ids[k] == x);
            }
            if x == ids.last() {
                assert(ids[ids.len() - 1] == x);
            }
            let d = distinct_ids(pre);
            if distinct_ids(ids).contains(x) && !d.contains(x) {
                let k = choose|k: int|
                    0 <= k < distinct_ids(ids).len() && distinct_ids(ids)[k] == x;
                if k < d.len() {
                    assert(d[k] == x);
                }
            }
            if d.contains(x) {
                let k = choose|k: int| 0 <= k < d.len() && d[k] == x;
                assert(distinct_ids(ids)[k] == x);
            }
        }
    }
}

/// Where `x` stands among the tally's ids, if it does.
fn find_id(t: &Vec<(i32, i32)>, x: i32) -> (r: Option<usize>)
    ensures
        match r {
            Some(j) => j < t@.len() && t@[j as int].0 == x,
            None => forall|k: int| 0 <= k < t@.len() ==> (#[trigger] t@[k]).0 != x,
        },
{
    for j in 0..t.len()
        invariant
            forall|k: int| 0 <= k < j ==> (#[trigger] t@[k]).0 != x,
    {
        if t[j].0 == x {
            return Some(j);
        }
    }
    None
}

/// Every id stands in `ids` at most `i32::MAX` times: each count fits an `i32`.
pub open spec fn counts_fit(ids: Seq<i32>) -> bool {
    forall|x: i32| occurrences(ids, x) <= i32::MAX
}

proof fn lemma_occurrences_prefix(ids: Seq<i32>, i: int, x: i32)
    requires
        0 <= i <= ids.len(),
    ensures
        occurrences(ids.take(i), x) <= occurrences(ids, x),
    decreases ids.len() - i,
{
    if i < ids.len() {
        lemma_occurrences_prefix(ids, i + 1, x);
        assert(ids.take(i).push(ids[i]) =~= ids.take(i + 1));
        lemma_occurrences_push(ids.take(i), ids[i], x);
    } else {
        assert(ids.take(i) =~= ids);
    }
}

/// Counts the ids of a cart: each id once, in the order of first appearance,
/// with the number of times it was added. `None` where some id stands more
/// times than an `i32` count can hold (where counting it overflows).
pub fn cart_counts(ids: &Vec<i32>) -> (r: Option<Vec<(i32, i32)>>)
    ensures
        match r {
            Some(t) => counts_fit(ids@) && is_tally_of(t@, ids@),
            None => !counts_fit(ids@),
        },
{
    let mut t: Vec<(i32, i32)> = Vec::new();
    for i in 0..ids.len()
        invariant
            is_tally_of(t@, ids@.take(i as int)),
    {
        let x = ids[i];
        let ghost pre = ids@.take(i as int);
        let ghost cur = ids@.take(i + 1);
        assert(pre.push(x) =~= cur);
        assert(cur.drop_last() =~= pre);
        proof {
            lemma_distinct_ids(pre);
            assert forall|y: i32| occurrences(cur, y) == occurrences(pre, y) + (if x == y {
                1nat
            } else {
                0nat
            }) by {
                lemma_occurrences_push(pre, x, y);
            }
        }
        match find_id(&t, x) {
            Some(j) => {
                let c = t[j].1;
                proof {
                    assert(distinct_ids(pre)[j as int] == x);
                    assert(distinct_ids(pre).contains(x));
                }
                if c == 0x7fff_ffff {
                    proof {
                        lemma_occurrences_prefix(ids@, i + 1, x);
                    }
                    return None;
                }
                t.set(j, (x, c + 1));
                proof {
                    assert forall|k: int| 0 <= k < t@.len() implies (#[trigger] t@[k]).0
                        == distinct_ids(cur)[k] && t@[k].1 == occurrences(cur, t@[k].0) by {
                        if k != j {
                            assert(distinct_ids(pre)[k] != x) by {
                                assert(distinct_ids(pre).no_duplicates());
                            }
                        }
                    }
                }
            },
            None => {
                proof {
                    assert(!distinct_ids(pre).contains(x)) by {
                        if distinct_ids(pre).contains(x) {
                            let k = choose|k: int|
                                0 <= k < distinct_ids(pre).len() && distinct_ids(pre)[k] == x;
                            assert(t@[k].0 != x);
                        }
                    }
                    assert(!pre.contains(x));
                    lemma_occurrences_bound(pre, x);
                }
                t.push((x, 1));
                proof {
                    assert forall|k: int| 0 <= k < t@.len() implies (#[trigger] t@[k]).0
                        == distinct_ids(cur)[k] && t@[k].1 == occurrences(cur, t@[k].0) by {
                        if k < t@.len() - 1 {
                            assert(t@[k].0 != x);
                        }
                    }
                }
            },
        }
    }
    assert(ids@.take(ids.len() as int) =~= ids@);
    proof {
        lemma_distinct_ids(ids@);
        assert forall|x: i32| occurrences(ids@, x) <= i32::MAX by {
            lemma_occurrences_bound(ids@, x);
            if ids@.contains(x) {
                let k = choose|k: int|
                    0 <= k < distinct_ids(ids@).len() && distinct_ids(ids@)[k] == x;
                assert(t@[k].0 == x);
            }
        }
    }
    Some(t)
}


/// The sum of the counts of a tally.
pub open spec fn tally_total(t: Seq<(i32, i32)>) -> int
    decreases t.len(),
{
    if t.len() == 0 {
        0
    } else {
        tally_total(t.drop_last()) + t.last().1
    }
}

/// How many ids of `ids` stand among `keys`, summed key by key.
spec fn keyed_occurrences(keys: Seq<i32>, ids: Seq<i32>) -> int
    decreases keys.len(),
{
    if keys.len() == 0 {
        0
    } else {
        keyed_occurrences(keys.drop_last(), ids) + occurrences(ids, keys.last())
    }
}

proof fn lemma_keyed_occurrences_push(keys: Seq<i32>, ids: Seq<i32>, x: i32)
    requires
        keys.no_duplicates(),
    ensures
        keyed_occurrences(keys, ids.push(x)) == keyed_occurrences(keys, ids) + (if keys.contains(x) {
            1int
        } else {
            0int
        }),
    decreases keys.len(),
{
    if keys.len() > 0 {
        let pre = keys.drop_last();
        assert(pre.no_duplicates());
        lemma_keyed_occurrences_push(pre, ids, x);
        lemma_occurrences_push(ids, x, keys.last());
        if pre.contains(x) {
            let k = choose|k: int| 0 <= k < pre.len() && pre[k] == x;
            assert(keys[k] == x);
            assert(keys.last() != x) by {
                assert(keys[keys.len() - 1] == keys.last());
            }
        }
        if keys.contains(x) && !pre.contains(x) {
            let k = choose|k: int| 0 <= k < keys.len() && keys[k] == x;
            if k < keys.len() - 1 {
                assert(pre[k] == x);
            }
        }
        if keys.last() == x {
            assert(keys[keys.len() - 1] == x);
        }
    }
}

proof fn lemma_keyed_occurrences_of_distinct(ids: Seq<i32>)
    ensures
        keyed_occurrences(distinct_ids(ids), ids) == ids.len(),
    decreases ids.len(),
{
    if ids.len() > 0 {
        let pre = ids.drop_last();
        let x = ids.last();
        lemma_keyed_occurrences_of_distinct(pre);
        lemma_distinct_ids(pre);
        assert(pre.push(x) =~= ids);
        let d = distinct_ids(pre);
        lemma_keyed_occurrences_push(d, pre, x);
        if !d.contains(x) {
            assert(distinct_ids(ids).drop_last() =~= d);
            lemma_occurrences_push(pre, x, x);
            lemma_occurrences_bound(pre, x);
        }
    }
}

proof fn lemma_tally_total_prefix(t: Seq<(i32, i32)>, ids: Seq<i32>, k: int)
    requires
        is_tally_of(t, ids),
        0 <= k <= t.len(),
    ensures
        tally_total(t.take(k)) == keyed_occurrences(distinct_ids(ids).take(k), ids),
    decreases k,
{
    if k > 0 {
        lemma_tally_total_prefix(t, ids, k - 1);
        assert(t.take(k).drop_last() =~= t.take(k - 1));
        assert(distinct_ids(ids).take(k).drop_last() =~= distinct_ids(ids).take(k - 1));
        assert(t.take(k).last() == t[k - 1]);
    }
}

/// A tally counts every id of the cart once: its counts sum to the number of
/// ids.
pub proof fn lemma_tally_counts_all(t: Seq<(i32, i32)>, ids: Seq<i32>)
    requires
        is_tally_of(t, ids),
    ensures
        tally_total(t) == ids.len(),
{
    lemma_tally_total_prefix(t, ids, t.len() as int);
    assert(t.take(t.len() as int) =~= t);
    assert(distinct_ids(ids).take(t.len() as int) =~= distinct_ids(ids));
    lemma_keyed_occurrences_of_distinct(ids);
}

} // verus!
