use crate::keys::{all_distinct, lemma_position_unique, lemma_remove_distinct, position_of};
use crate::models::{is_before, ProductView, Timestamp};
use crate::products::{created_product, find_product, product_ids, revised_product};
use vstd::prelude::*;

verus! {

/// Reading back a product right after creating it gives the created record:
/// its name, category, price and quantity are those of the payload, and its
/// two timestamps are equal.
pub proof fn lemma_create_then_get(
    before: Seq<ProductView>,
    payload: ProductView,
    id: u128,
    now: Timestamp,
)
    requires
        all_distinct(product_ids(before)),
        find_product(before, id) == None::<ProductView>,
    ensures
        ({
            let p = created_product(payload, id, now);
            &&& find_product(before.push(p), id) == Some(p)
            &&& p.id == id
            &&& p.name == payload.name
            &&& p.category == payload.category
            &&& p.price == payload.price
            &&& p.quantity == payload.quantity
            &&& p.created_at == p.updated_at
        }),
{
    let p = created_product(payload, id, now);
    let s = before.push(p);
    let ids = product_ids(before);
    assert(product_ids(s) =~= ids.push(id));
    crate::keys::lemma_push_distinct(ids, id);
    lemma_position_unique(product_ids(s), before.len() as int, id);
}

/// Creations one after another return pairwise distinct identifiers: where
/// each record of `created` was appended to a store that did not yet hold its
/// identifier, no two of them share one.
pub proof fn lemma_created_ids_distinct(before: Seq<ProductView>, created: Seq<ProductView>)
    requires
        forall|k: int|
            0 <= k < created.len() ==> find_product(before + created.take(k), #[trigger] created[k].id)
                == None::<ProductView>,
    ensures
        all_distinct(product_ids(created)),
{
    let ids = product_ids(created);
    assert forall|i: int, j: int| 0 <= i < ids.len() && 0 <= j < ids.len() && i != j implies ids[i]
        != ids[j] by {
        let (a, b) = if i < j { (i, j) } else { (j, i) };
        let held = before + created.take(b);
        assert(find_product(held, created[b].id) == None::<ProductView>);
        assert(held[before.len() + a] == created[a]);
        assert(product_ids(held)[before.len() + a] == created[a].id);
        if created[a].id == created[b].id {
            assert(product_ids(held).contains(created[b].id));
        }
    }
}

/// Once a product is deleted, reading it by its identifier finds nothing.
pub proof fn lemma_delete_then_get(s: Seq<ProductView>, id: u128)
    requires
        all_distinct(product_ids(s)),
        find_product(s, id) is Some,
    ensures
        find_product(s.remove(position_of(product_ids(s), id)), id) == None::<ProductView>,
{
    let ids = product_ids(s);
    let k = position_of(ids, id);
    assert(0 <= k < ids.len() && ids[k] == id);
    assert(product_ids(s.remove(k)) =~= ids.remove(k));
    lemma_remove_distinct(ids, k);
}

/// An update changes only the name, price, quantity and `updated_at` of a
/// product: its identifier, category and `created_at` are kept, it can still
/// be read by its identifier, and its `updated_at` advances whenever the
/// update happens after the previous one.
pub proof fn lemma_update_is_partial(s: Seq<ProductView>, id: u128, payload: ProductView, now: Timestamp)
    requires
        all_distinct(product_ids(s)),
        find_product(s, id) is Some,
    ensures
        ({
            let cur = find_product(s, id)->Some_0;
            let r = revised_product(cur, payload, now);
            &&& find_product(s.update(position_of(product_ids(s), id), r), id) == Some(r)
            &&& r.id == cur.id
            &&& r.category == cur.category
            &&& r.created_at == cur.created_at
            &&& r.name == payload.name
            &&& r.price == payload.price
            &&& r.quantity == payload.quantity
            &&& (is_before(cur.updated_at, now) ==> is_before(cur.updated_at, r.updated_at))
        }),
{
    let ids = product_ids(s);
    let k = position_of(ids, id);
    assert(0 <= k < ids.len() && ids[k] == id);
    let cur = s[k];
    let r = revised_product(cur, payload, now);
    assert(product_ids(s.update(k, r)) =~= ids);
    lemma_position_unique(ids, k, id);
}

/// Listing after creations and deletions shows the records that remain in
/// creation order: a creation adds its record at the end, and a deletion
/// takes out exactly the deleted record, one fewer, keeping the others in
/// their order.
pub proof fn lemma_list_follows_creation_order(s: Seq<ProductView>, p: ProductView, id: u128)
    requires
        all_distinct(product_ids(s)),
        find_product(s, id) is Some,
    ensures
        s.push(p).len() == s.len() + 1,
        s.push(p).last() == p,
        s.push(p).take(s.len() as int) == s,
        ({
            let k = position_of(product_ids(s), id);
            let r = s.remove(k);
            &&& r.len() == s.len() - 1
            &&& s[k].id == id
            &&& forall|i: int| 0 <= i < k ==> r[i] == s[i]
            &&& forall|i: int| k <= i < r.len() ==> r[i] == s[i + 1]
        }),
{
    assert(s.push(p).take(s.len() as int) =~= s);
    let ids = product_ids(s);
    let k = position_of(ids, id);
    assert(0 <= k < ids.len() && ids[k] == id);
}

} // verus!
