//! The rows of the `products` and `users` tables, and the rows to insert.

use vstd::prelude::*;

verus! {

/// A row of `products`.
pub struct Product {
    pub id: i32,
    pub name: String,
    pub image: String,
    pub description: String,
    pub price: i32,
}

impl Clone for Product {
    fn clone(&self) -> (r: Self)
        ensures
            r == *self,
    {
        Product {
            id: self.id,
            name: self.name.clone(),
            image: self.image.clone(),
            description: self.description.clone(),
            price: self.price,
        }
    }
}

/// A row to insert into `products`.
pub struct NewProduct<'a> {
    pub name: &'a str,
    pub image: &'a str,
    pub description: &'a str,
    pub price: i32,
}

/// A row of `users`; `password` holds the lower-case hex SHA-256 of the
/// password.
pub struct User {
    pub id: i32,
    pub name: String,
    pub email: String,
    pub password: String,
    pub privilege: i32,
}

/// A row to insert into `users` (its id and privilege are the table's
/// defaults).
pub struct NewUser {
    pub name: String,
    pub email: String,
    pub password: String,
}

} // verus!
