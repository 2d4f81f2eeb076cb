use crate::clock::{fresh_id, utc_now};
use crate::keys::{
    all_distinct, lemma_position_unique, lemma_push_distinct, lemma_remove_distinct, position_of,
    StoreError,
};
use crate::models::{Product, ProductView, Timestamp};
use vstd::prelude::*;

verus! {

/// The identifiers of `s`, in order.
pub open spec fn product_ids(s: Seq<ProductView>) -> Seq<u128> {
    s.map_values(|p: ProductView| p.id)
}

/// The record of `s` with identifier `id`, if there is one.
pub open spec fn find_product(s: Seq<ProductView>, id: u128) -> Option<ProductView> {
    if product_ids(s).contains(id) {
        Some(s[position_of(product_ids(s), id)])
    } else {
        None
    }
}

/// The record that creation stores for `payload`: the identifier and both
/// timestamps are the server's, every other field is the payload's.
pub open spec fn created_product(payload: ProductView, id: u128, now: Timestamp) -> ProductView {
    ProductView {
        id: id,
        name: payload.name,
        category: payload.category,
        price: payload.price,
        created_at: now,
        updated_at: now,
        quantity: payload.quantity,
    }
}

/// The record that an update leaves: name, price and quantity come from
/// `payload`, `updated_at` is `now`, and the rest is kept from `current`.
pub open spec fn revised_product(
    current: ProductView,
    payload: ProductView,
    now: Timestamp,
) -> ProductView {
    ProductView {
        id: current.id,
        name: payload.name,
        category: current.category,
        price: payload.price,
        created_at: current.created_at,
        updated_at: now,
        quantity: payload.quantity,
    }
}

/// The products, in the order in which they were created.
pub struct ProductStore {
    items: Vec<Product>,
}

impl View for ProductStore {
    type V = Seq<ProductView>;

    closed spec fn view(&self) -> Seq<ProductView> {
        self.items@.map_values(|p: Product| p@)
    }
}

impl ProductStore {
    #[verifier::type_invariant]
    spec fn inv(&self) -> bool {
        all_distinct(product_ids(self@))
    }

    /// An empty store.
    pub fn new() -> (r: ProductStore)
        ensures
            r@ == Seq::<ProductView>::empty(),
            all_distinct(product_ids(r@)),
    {
        let r = ProductStore { items: Vec::new() };
        assert(product_ids(r@) =~= Seq::<u128>::empty());
        r
    }

    /// The number of records held.
    pub fn len(&self) -> (r: usize)
        ensures
            r == self@.len(),
            all_distinct(product_ids(self@)),
    {
        proof {
            use_type_invariant(self);
        }
        self.items.len()
    }

    /// The position of the record with identifier `id`, if one is held.
    fn position(&self, id: u128) -> (r: Option<usize>)
        ensures
            match r {
                Some(k) => k < self@.len() && self@[k as int].id == id && find_product(self@, id)
                    == Some(self@[k as int]),
                None => find_product(self@, id) == None::<ProductView>,
            },
    {
        proof {
            use_type_invariant(self);
        }
        let ghost ids = product_ids(self@);
        let mut i: usize = 0;
        while i < self.items.len()
            invariant
                i <= self.items@.len(),
                ids == product_ids(self@),
                all_distinct(ids),
                forall|j: int| 0 <= j < i ==> ids[j] != id,
            decreases self.items@.len() - i,
        {
            if self.items[i].id == id {
                proof {
                    assert(ids[i as int] == id);
                    lemma_position_unique(ids, i as int, id);
                }
                return Some(i);
            }
            i = i + 1;
        }
        proof {
            if ids.contains(id) {
                let j = choose|j: int| 0 <= j < ids.len() && ids[j] == id;
                assert(ids[j] != id);
            }
        }
        None
    }

    /// A copy of every record held, in creation order.
    pub fn list(&self) -> (r: Vec<Product>)
        ensures
            r@.map_values(|p: Product| p@) == self@,
    {
        let mut out: Vec<Product> = Vec::new();
        let mut i: usize = 0;
        while i < self.items.len()
            invariant
                i <= self.items@.len(),
                out@.map_values(|p: Product| p@) =~= self@.subrange(0, i as int),
            decreases self.items@.len() - i,
        {
            let p = self.items[i].duplicate();
            let ghost before = out@;
            out.push(p);
            proof {
                assert(out@.map_values(|p: Product| p@) =~= before.map_values(|p: Product| p@).push(
                    p@,
                ));
                assert(self@.subrange(0, i + 1) =~= self@.subrange(0, i as int).push(self@[i as int]));
            }
            i = i + 1;
        }
        assert(self@.subrange(0, i as int) =~= self@);
        out
    }

    /// A copy of the record with identifier `id`.
    pub fn get(&self, id: u128) -> (r: Result<Product, StoreError>)
        ensures
            match r {
                Ok(p) => find_product(self@, id) == Some(p@),
                Err(e) => e == StoreError::NotFound && find_product(self@, id) == None::<
                    ProductView,
                >,
            },
    {
        match self.position(id) {
            Some(k) => Ok(self.items[k].duplicate()),
            None => Err(StoreError::NotFound),
        }
    }

    /// Stores a new record built from `payload`, with identifier `id` and both
    /// timestamps set to `now`, unless `id` is already held.
    pub fn create_with(&mut self, payload: Product, id: u128, now: Timestamp) -> (r: Result<
        Product,
        StoreError,
    >)
        ensures
            all_distinct(product_ids(final(self)@)),
            match r {
                Ok(p) => p@ == created_product(payload@, id, now) && find_product(old(self)@, id)
                    == None::<ProductView> && final(self)@ == old(self)@.push(p@),
                Err(e) => e == StoreError::DuplicateId && find_product(old(self)@, id) is Some
                    && final(self)@ == old(self)@,
            },
    {
        proof {
            use_type_invariant(&*self);
        }
        if self.position(id).is_some() {
            return Err(StoreError::DuplicateId);
        }
        let record = Product {
            id: id,
            name: payload.name,
            category: payload.category,
            price: payload.price,
            created_at: now,
            updated_at: now,
            quantity: payload.quantity,
        };
        let copy = record.duplicate();
        let ghost before = self@;
        let mut items: Vec<Product> = Vec::new();
        std::mem::swap(&mut items, &mut self.items);
        let ghost old_items = items@;
        items.push(record);
        proof {
            assert(items@.map_values(|p: Product| p@) =~= old_items.map_values(|p: Product| p@).push(
                record@,
            ));
            assert(product_ids(before.push(record@)) =~= product_ids(before).push(id));
            lemma_push_distinct(product_ids(before), id);
        }
        self.items = items;
        Ok(copy)
    }

    /// Stores a new record built from `payload`, under a fresh random
    /// identifier and with both timestamps set to the current instant.
    pub fn create(&mut self, payload: Product) -> (r: Result<Product, StoreError>)
        ensures
            all_distinct(product_ids(final(self)@)),
            match r {
                Ok(p) => p@ == created_product(payload@, p.id, p.created_at) && find_product(
                    old(self)@,
                    p.id,
                ) == None::<ProductView> && final(self)@ == old(self)@.push(p@),
                Err(e) => e == StoreError::DuplicateId && old(self)@.len() > 0 && final(self)@
                    == old(self)@,
            },
    {
        let id = fresh_id();
        let now = utc_now();
        let r = self.create_with(payload, id, now);
        proof {
            if r is Err {
                let ids = product_ids(old(self)@);
                assert(ids.contains(id));
                let j = choose|j: int| 0 <= j < ids.len() && ids[j] == id;
                assert(ids.len() == old(self)@.len());
            }
        }
        r
    }

    /// Overwrites the name, price and quantity of the record with identifier
    /// `id` by those of `payload`, and sets its `updated_at` to `now`.
    pub fn update_with(&mut self, id: u128, payload: Product, now: Timestamp) -> (r: Result<
        Product,
        StoreError,
    >)
        ensures
            all_distinct(product_ids(final(self)@)),
            match r {
                Ok(p) => match find_product(old(self)@, id) {
                    Some(cur) => p@ == revised_product(cur, payload@, now) && final(self)@ == old(self)@.update(position_of(product_ids(old(self)@), id), p@),
                    None => false,
                },
                Err(e) => e == StoreError::NotFound && find_product(old(self)@, id) == None::<
                    ProductView,
                > && final(self)@ == old(self)@,
            },
    {
        proof {
            use_type_invariant(&*self);
        }
        let k = match self.position(id) {
            Some(k) => k,
            None => {
                return Err(StoreError::NotFound);
            },
        };
        let ghost before = self@;
        let record = Product {
            id: self.items[k].id,
            name: payload.name,
            category: self.items[k].category.duplicate(),
            price: payload.price,
            created_at: self.items[k].created_at,
            updated_at: now,
            quantity: payload.quantity,
        };
        let copy = record.duplicate();
        let mut items: Vec<Product> = Vec::new();
        std::mem::swap(&mut items, &mut self.items);
        let ghost old_items = items@;
        items.set(k, record);
        proof {
            lemma_position_unique(product_ids(before), k as int, id);
            assert(items@.map_values(|p: Product| p@) =~= old_items.map_values(|p: Product| p@).update(
                k as int,
                record@,
            ));
            assert(product_ids(before.update(k as int, record@)) =~= product_ids(before));
        }
        self.items = items;
        Ok(copy)
    }

    /// Overwrites the name, price and quantity of the record with identifier
    /// `id` by those of `payload`, and sets its `updated_at` to the current
    /// instant.
    pub fn update(&mut self, id: u128, payload: Product) -> (r: Result<Product, StoreError>)
        ensures
            all_distinct(product_ids(final(self)@)),
            match r {
                Ok(p) => match find_product(old(self)@, id) {
                    Some(cur) => p@ == revised_product(cur, payload@, p.updated_at) && final(self)@ == old(self)@.update(position_of(product_ids(old(self)@), id), p@),
                    None => false,
                },
                Err(e) => e == StoreError::NotFound && find_product(old(self)@, id) == None::<
                    ProductView,
                > && final(self)@ == old(self)@,
            },
    {
        let now = utc_now();
        self.update_with(id, payload, now)
    }

    /// Removes the record with identifier `id`; the others keep their order.
    pub fn delete(&mut self, id: u128) -> (r: Result<(), StoreError>)
        ensures
            all_distinct(product_ids(final(self)@)),
            match r {
                Ok(_) => find_product(old(self)@, id) is Some && final(self)@ == old(self)@.remove(
                    position_of(product_ids(old(self)@), id),
                ),
                Err(e) => e == StoreError::NotFound && find_product(old(self)@, id) == None::<
                    ProductView,
                > && final(self)@ == old(self)@,
            },
    {
        proof {
            use_type_invariant(&*self);
        }
        let k = match self.position(id) {
            Some(k) => k,
            None => {
                return Err(StoreError::NotFound);
            },
        };
        let ghost before = self@;
        let mut items: Vec<Product> = Vec::new();
        std::mem::swap(&mut items, &mut self.items);
        let ghost old_items = items@;
        items.remove(k);
        proof {
            lemma_position_unique(product_ids(before), k as int, id);
            assert(items@.map_values(|p: Product| p@) =~= old_items.map_values(|p: Product| p@).remove(
                k as int,
            ));
            assert(product_ids(before.remove(k as int)) =~= product_ids(before).remove(k as int));
            lemma_remove_distinct(product_ids(before), k as int);
        }
        self.items = items;
        Ok(())
    }
}

} // verus!
