//! Customers: the instance's contact address-book.
//!
//! A flat list of people with whom this instance has transacted, held for convenience:
//! charges keep the customer fields they need, so that nothing links back here.

use crate::ids::{fresh_id, is_random_part};
use vstd::prelude::*;

verus! {

/// A request to add a customer.
#[derive(Debug)]
pub struct CreateCustomer {
    pub name: Option<String>,
    pub email: Option<String>,
    pub msisdn: Option<String>,
}

/// A customer.
#[derive(Debug)]
pub struct Customer {
    pub id: String,
    pub name: Option<String>,
    pub email: Option<String>,
    pub msisdn: Option<String>,
    pub status: String,
    pub created_at: String,
}

/// A customer to insert. Its status and its time of creation come from the database.
#[derive(Debug)]
pub struct NewCustomer {
    pub id: String,
    pub name: Option<String>,
    pub email: Option<String>,
    pub msisdn: Option<String>,
}

/// Add a customer under a fresh identifier.
pub fn create(req: CreateCustomer) -> (c: NewCustomer)
    ensures
        exists|random: Seq<char>| is_random_part(random) && c.id@ == "cus_"@ + random,
        c.name == req.name,
        c.email == req.email,
        c.msisdn == req.msisdn,
{
    NewCustomer {
        id: fresh_id("cus_"),
        name: req.name,
        email: req.email,
        msisdn: req.msisdn,
    }
}

} // verus!
