use vstd::prelude::*;

verus! {

/// An instant in UTC: whole seconds since the Unix epoch and the nanoseconds
/// past that second.
#[derive(Clone, Copy, Debug, PartialEq, Eq, Structural)]
pub struct Timestamp {
    pub secs: i64,
    pub nanos: u32,
}

/// Whether instant `a` comes strictly before instant `b`.
pub open spec fn is_before(a: Timestamp, b: Timestamp) -> bool {
    a.secs < b.secs || (a.secs == b.secs && a.nanos < b.nanos)
}

impl Timestamp {
    /// Whether `self` comes strictly before `other`.
    pub fn before(&self, other: &Timestamp) -> (r: bool)
        ensures
            r == is_before(*self, *other),
    {
        self.secs < other.secs || (self.secs == other.secs && self.nanos < other.nanos)
    }
}

/// A category of products.
#[derive(Clone, Debug)]
pub struct Category {
    pub id: u128,
    pub name: String,
    pub created_at: Timestamp,
    pub updated_at: Timestamp,
}

/// The mathematical value of a [`Category`].
pub ghost struct CategoryView {
    pub id: u128,
    pub name: Seq<char>,
    pub created_at: Timestamp,
    pub updated_at: Timestamp,
}

impl View for Category {
    type V = CategoryView;

    open spec fn view(&self) -> CategoryView {
        CategoryView {
            id: self.id,
            name: self.name@,
            created_at: self.created_at,
            updated_at: self.updated_at,
        }
    }
}

impl Category {
    /// A copy of this category, field for field.
    pub fn duplicate(&self) -> (r: Category)
        ensures
            r == *self,
    {
        Category {
            id: self.id,
            name: self.name.clone(),
            created_at: self.created_at,
            updated_at: self.updated_at,
        }
    }
}

/// A product, with the category it belongs to embedded by value.
#[derive(Clone, Debug)]
pub struct Product {
    pub id: u128,
    pub name: String,
    pub category: Category,
    pub price: u32,
    pub created_at: Timestamp,
    pub updated_at: Timestamp,
    pub quantity: u32,
}

/// The mathematical value of a [`Product`].
pub ghost struct ProductView {
    pub id: u128,
    pub name: Seq<char>,
    pub category: CategoryView,
    pub price: u32,
    pub created_at: Timestamp,
    pub updated_at: Timestamp,
    pub quantity: u32,
}

impl View for Product {
    type V = ProductView;

    open spec fn view(&self) -> ProductView {
        ProductView {
            id: self.id,
            name: self.name@,
            category: self.category@,
            price: self.price,
            created_at: self.created_at,
            updated_at: self.updated_at,
            quantity: self.quantity,
        }
    }
}

impl Product {
    /// A copy of this product, field for field.
    pub fn duplicate(&self) -> (r: Product)
        ensures
            r == *self,
    {
        Product {
            id: self.id,
            name: self.name.clone(),
            category: self.category.duplicate(),
            price: self.price,
            created_at: self.created_at,
            updated_at: self.updated_at,
            quantity: self.quantity,
        }
    }
}

} // verus!
