use crate::keys::StoreError;
use vstd::prelude::*;

verus! {

/// The two kinds of record the service keeps.
#[derive(Clone, Copy, Debug, PartialEq, Eq, Structural)]
pub enum Resource {
    Product,
    Category,
}

/// The operations offered on each kind of record.
#[derive(Clone, Copy, Debug, PartialEq, Eq, Structural)]
pub enum Operation {
    List,
    Create,
    Get,
    Update,
    Delete,
}

pub const STATUS_OK: u16 = 200;

pub const STATUS_CREATED: u16 = 201;

pub const STATUS_NO_CONTENT: u16 = 204;

pub const STATUS_NOT_FOUND: u16 = 404;

pub const STATUS_INTERNAL_ERROR: u16 = 500;

/// The HTTP status of a successful operation.
pub open spec fn success_status_of(op: Operation) -> u16 {
    match op {
        Operation::Create => STATUS_CREATED,
        Operation::Delete => STATUS_NO_CONTENT,
        _ => STATUS_OK,
    }
}

/// The HTTP status that reports a store error.
pub open spec fn error_status_of(e: StoreError) -> u16 {
    match e {
        StoreError::NotFound => STATUS_NOT_FOUND,
        StoreError::DuplicateId => STATUS_INTERNAL_ERROR,
    }
}

/// The text of the `error` field of the body that reports a store error.
pub open spec fn error_text(resource: Resource, op: Operation, e: StoreError) -> Seq<char> {
    match e {
        StoreError::NotFound => match (resource, op) {
            (Resource::Product, Operation::Delete) => "product was not found"@,
            (Resource::Product, _) => "product not found"@,
            (Resource::Category, Operation::Delete) => "category was not found"@,
            (Resource::Category, _) => "category not found"@,
        },
        StoreError::DuplicateId => "identifier already in use"@,
    }
}

/// The HTTP status of a successful operation.
pub fn success_status(op: Operation) -> (r: u16)
    ensures
        r == success_status_of(op),
{
    match op {
        Operation::Create => STATUS_CREATED,
        Operation::Delete => STATUS_NO_CONTENT,
        _ => STATUS_OK,
    }
}

/// The HTTP status that reports a store error.
pub fn error_status(e: StoreError) -> (r: u16)
    ensures
        r == error_status_of(e),
{
    match e {
        StoreError::NotFound => STATUS_NOT_FOUND,
        StoreError::DuplicateId => STATUS_INTERNAL_ERROR,
    }
}

/// The text of the `error` field of the body that reports a store error.
pub fn error_message(resource: Resource, op: Operation, e: StoreError) -> (r: &'static str)
    ensures
        r@ == error_text(resource, op, e),
{
    match e {
        StoreError::NotFound => match (resource, op) {
            (Resource::Product, Operation::Delete) => "product was not found",
            (Resource::Product, _) => "product not found",
            (Resource::Category, Operation::Delete) => "category was not found",
            (Resource::Category, _) => "category not found",
        },
        StoreError::DuplicateId => "identifier already in use",
    }
}

} // verus!
