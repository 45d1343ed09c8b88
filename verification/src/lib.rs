//! The verified core of a small web shop: session cookies and the guards that
//! read them back, the shopping cart kept in a cookie, password hashing, and
//! the replies that each route sends.

pub mod text;
pub mod cart;
pub mod models;
pub mod cookies;
pub mod reply;
pub mod guards;
pub mod password;
pub mod routes;
