use crate::clock::{fresh_id, utc_now};
use crate::keys::{
    all_distinct, lemma_position_unique, lemma_push_distinct, lemma_remove_distinct, position_of,
    StoreError,
};
use crate::models::{Category, CategoryView, Timestamp};
use vstd::prelude::*;

verus! {

/// The identifiers of `s`, in order.
pub open spec fn category_ids(s: Seq<CategoryView>) -> Seq<u128> {
    s.map_values(|c: CategoryView| c.id)
}

/// The record of `s` with identifier `id`, if there is one.
pub open spec fn find_category(s: Seq<CategoryView>, id: u128) -> Option<CategoryView> {
    if category_ids(s).contains(id) {
        Some(s[position_of(category_ids(s), id)])
    } else {
        None
    }
}

/// The record that creation stores for `payload`: the identifier and both
/// timestamps are the server's, every other field is the payload's.
pub open spec fn created_category(payload: CategoryView, id: u128, now: Timestamp) -> CategoryView {
    CategoryView {
        id: id,
        name: payload.name,
        created_at: now,
        updated_at: now,
    }
}

/// The record that an update leaves: the name comes from `payload`,
/// `updated_at` is `now`, and the rest is kept from `current`.
pub open spec fn revised_category(
    current: CategoryView,
    payload: CategoryView,
    now: Timestamp,
) -> CategoryView {
    CategoryView {
        id: current.id,
        name: payload.name,
        created_at: current.created_at,
        updated_at: now,
    }
}

/// The categories, in the order in which they were created.
pub struct CategoryStore {
    items: Vec<Category>,
}

impl View for CategoryStore {
    type V = Seq<CategoryView>;

    closed spec fn view(&self) -> Seq<CategoryView> {
        self.items@.map_values(|c: Category| c@)
    }
}

impl CategoryStore {
    #[verifier::type_invariant]
    spec fn inv(&self) -> bool {
        all_distinct(category_ids(self@))
    }

    /// An empty store.
    pub fn new() -> (r: CategoryStore)
        ensures
            r@ == Seq::<CategoryView>::empty(),
            all_distinct(category_ids(r@)),
    {
        let r = CategoryStore { items: Vec::new() };
        assert(category_ids(r@) =~= Seq::<u128>::empty());
        r
    }

    /// The number of records held.
    pub fn len(&self) -> (r: usize)
        ensures
            r == self@.len(),
            all_distinct(category_ids(self@)),
    {
        proof {
            use_type_invariant(self);
        }
        self.items.len()
    }

    /// The position of the record with identifier `id`, if one is held.
    fn position(&self, id: u128) -> (r: Option<usize>)
        ensures
            match r {
                Some(k) => k < self@.len() && self@[k as int].id == id && find_category(self@, id)
                    == Some(self@[k as int]),
                None => find_category(self@, id) == None::<CategoryView>,
            },
    {
        proof {
            use_type_invariant(self);
        }
        let ghost ids = category_ids(self@);
        let mut i: usize = 0;
        while i < self.items.len()
            invariant
                i <= self.items@.len(),
                ids == category_ids(self@),
                all_distinct(ids),
                forall|j: int| 0 <= j < i ==> ids[j] != id,
            decreases self.items@.len() - i,
        {
            if self.items[i].id == id {
                proof {
                    assert(ids[i as int] == id);
                    lemma_position_unique(ids, i as int, id);
                }
                return Some(i);
            }
            i = i + 1;
        }
        proof {
            if ids.contains(id) {
                let j = choose|j: int| 0 <= j < ids.len() && ids[j] == id;
                assert(ids[j] != id);
            }
        }
        None
    }

    /// A copy of every record held, in creation order.
    pub fn list(&self) -> (r: Vec<Category>)
        ensures
            r@.map_values(|c: Category| c@) == self@,
    {
        let mut out: Vec<Category> = Vec::new();
        let mut i: usize = 0;
        while i < self.items.len()
            invariant
                i <= self.items@.len(),
                out@.map_values(|c: Category| c@) =~= self@.subrange(0, i as int),
            decreases self.items@.len() - i,
        {
            let p = self.items[i].duplicate();
            let ghost before = out@;
            out.push(p);
            proof {
                assert(out@.map_values(|c: Category| c@) =~= before.map_values(|c: Category| c@).push(
                    p@,
                ));
                assert(self@.subrange(0, i + 1) =~= self@.subrange(0, i as int).push(self@[i as int]));
            }
            i = i + 1;
        }
        assert(self@.subrange(0, i as int) =~= self@);
        out
    }

    /// A copy of the record with identifier `id`.
    pub fn get(&self, id: u128) -> (r: Result<Category, StoreError>)
        ensures
            match r {
                Ok(p) => find_category(self@, id) == Some(p@),
                Err(e) => e == StoreError::NotFound && find_category(self@, id) == None::<
                    CategoryView,
                >,
            },
    {
        match self.position(id) {
            Some(k) => Ok(self.items[k].duplicate()),
            None => Err(StoreError::NotFound),
        }
    }

    /// Stores a new record built from `payload`, with identifier `id` and both
    /// timestamps set to `now`, unless `id` is already held.
    pub fn create_with(&mut self, payload: Category, id: u128, now: Timestamp) -> (r: Result<
        Category,
        StoreError,
    >)
        ensures
            all_distinct(category_ids(final(self)@)),
            match r {
                Ok(p) => p@ == created_category(payload@, id, now) && find_category(old(self)@, id)
                    == None::<CategoryView> && final(self)@ == old(self)@.push(p@),
                Err(e) => e == StoreError::DuplicateId && find_category(old(self)@, id) is Some
                    && final(self)@ == old(self)@,
            },
    {
        proof {
            use_type_invariant(&*self);
        }
        if self.position(id).is_some() {
            return Err(StoreError::DuplicateId);
        }
        let record = Category {
            id: id,
            name: payload.name,
            created_at: now,
            updated_at: now,
        };
        let copy = record.duplicate();
        let ghost before = self@;
        let mut items: Vec<Category> = Vec::new();
        std::mem::swap(&mut items, &mut self.items);
        let ghost old_items = items@;
        items.push(record);
        proof {
            assert(items@.map_values(|c: Category| c@) =~= old_items.map_values(|c: Category| c@).push(
                record@,
            ));
            assert(category_ids(before.push(record@)) =~= category_ids(before).push(id));
            lemma_push_distinct(category_ids(before), id);
        }
        self.items = items;
        Ok(copy)
    }

    /// Stores a new record built from `payload`, under a fresh random
    /// identifier and with both timestamps set to the current instant.
    pub fn create(&mut self, payload: Category) -> (r: Result<Category, StoreError>)
        ensures
            all_distinct(category_ids(final(self)@)),
            match r {
                Ok(p) => p@ == created_category(payload@, p.id, p.created_at) && find_category(
                    old(self)@,
                    p.id,
                ) == None::<CategoryView> && final(self)@ == old(self)@.push(p@),
                Err(e) => e == StoreError::DuplicateId && old(self)@.len() > 0 && final(self)@
                    == old(self)@,
            },
    {
        let id = fresh_id();
        let now = utc_now();
        let r = self.create_with(payload, id, now);
        proof {
            if r is Err {
                let ids = category_ids(old(self)@);
                assert(ids.contains(id));
                let j = choose|j: int| 0 <= j < ids.len() && ids[j] == id;
                assert(ids.len() == old(self)@.len());
            }
        }
        r
    }

    /// Overwrites the name of the record with identifier `id` by that of
    /// `payload`, and sets its `updated_at` to `now`.
    pub fn update_with(&mut self, id: u128, payload: Category, now: Timestamp) -> (r: Result<
        Category,
        StoreError,
    >)
        ensures
            all_distinct(category_ids(final(self)@)),
            match r {
                Ok(p) => match find_category(old(self)@, id) {
                    Some(cur) => p@ == revised_category(cur, payload@, now) && final(self)@ == old(self)@.update(position_of(category_ids(old(self)@), id), p@),
                    None => false,
                },
                Err(e) => e == StoreError::NotFound && find_category(old(self)@, id) == None::<
                    CategoryView,
                > && final(self)@ == old(self)@,
            },
    {
        proof {
            use_type_invariant(&*self);
        }
        let k = match self.position(id) {
            Some(k) => k,
            None => {
                return Err(StoreError::NotFound);
            },
        };
        let ghost before = self@;
        let record = Category {
            id: self.items[k].id,
            name: payload.name,
            created_at: self.items[k].created_at,
            updated_at: now,
        };
        let copy = record.duplicate();
        let mut items: Vec<Category> = Vec::new();
        std::mem::swap(&mut items, &mut self.items);
        let ghost old_items = items@;
        items.set(k, record);
        proof {
            lemma_position_unique(category_ids(before), k as int, id);
            assert(items@.map_values(|c: Category| c@) =~= old_items.map_values(|c: Category| c@).update(
                k as int,
                record@,
            ));
            assert(category_ids(before.update(k as int, record@)) =~= category_ids(before));
        }
        self.items = items;
        Ok(copy)
    }

    /// Overwrites the name of the record with identifier `id` by that of
    /// `payload`, and sets its `updated_at` to the current instant.
    pub fn update(&mut self, id: u128, payload: Category) -> (r: Result<Category, StoreError>)
        ensures
            all_distinct(category_ids(final(self)@)),
            match r {
                Ok(p) => match find_category(old(self)@, id) {
                    Some(cur) => p@ == revised_category(cur, payload@, p.updated_at) && final(self)@ == old(self)@.update(position_of(category_ids(old(self)@), id), p@),
                    None => false,
                },
                Err(e) => e == StoreError::NotFound && find_category(old(self)@, id) == None::<
                    CategoryView,
                > && final(self)@ == old(self)@,
            },
    {
        let now = utc_now();
        self.update_with(id, payload, now)
    }

    /// Removes the record with identifier `id`; the others keep their order.
    pub fn delete(&mut self, id: u128) -> (r: Result<(), StoreError>)
        ensures
            all_distinct(category_ids(final(self)@)),
            match r {
                Ok(_) => find_category(old(self)@, id) is Some && final(self)@ == old(self)@.remove(
                    position_of(category_ids(old(self)@), id),
                ),
                Err(e) => e == StoreError::NotFound && find_category(old(self)@, id) == None::<
                    CategoryView,
                > && final(self)@ == old(self)@,
            },
    {
        proof {
            use_type_invariant(&*self);
        }
        let k = match self.position(id) {
            Some(k) => k,
            None => {
                return Err(StoreError::NotFound);
            },
        };
        let ghost before = self@;
        let mut items: Vec<Category> = Vec::new();
        std::mem::swap(&mut items, &mut self.items);
        let ghost old_items = items@;
        items.remove(k);
        proof {
            lemma_position_unique(category_ids(before), k as int, id);
            assert(items@.map_values(|c: Category| c@) =~= old_items.map_values(|c: Category| c@).remove(
                k as int,
            ));
            assert(category_ids(before.remove(k as int)) =~= category_ids(before).remove(k as int));
            lemma_remove_distinct(category_ids(before), k as int);
        }
        self.items = items;
        Ok(())
    }
}

} // verus!
