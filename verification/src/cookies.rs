//! Changes that a reply makes to the browser's cookies, and a model of the
//! cookie jar they act on.

use vstd::prelude::*;

verus! {

/// Setting (`value` is `Some`) or removing (`value` is `None`) one cookie;
/// `private` cookies are the encrypted ones.
pub struct CookieChange {
    pub name: String,
    pub value: Option<String>,
    pub private: bool,
}

/// A cookie change as plain values.
pub struct ChangeView {
    pub name: Seq<char>,
    pub value: Option<Seq<char>>,
    pub private: bool,
}

impl View for CookieChange {
    type V = ChangeView;

    open spec fn view(&self) -> ChangeView {
        ChangeView {
            name: self.name@,
            value: match self.value {
                Some(v) => Some(v@),
                None => None,
            },
            private: self.private,
        }
    }
}

/// The views of a list of cookie changes.
pub open spec fn changes_view(cs: Seq<CookieChange>) -> Seq<ChangeView> {
    cs.map_values(|c: CookieChange| c@)
}

/// A cookie as the browser holds it.
pub struct StoredCookie {
    pub value: Seq<char>,
    pub private: bool,
}

/// The browser's cookies, by name.
pub type Jar = Map<Seq<char>, StoredCookie>;

pub open spec fn apply_change(jar: Jar, c: ChangeView) -> Jar {
    match c.value {
        Some(v) => jar.insert(c.name, StoredCookie { value: v, private: c.private }),
        None => jar.remove(c.name),
    }
}

/// The jar after the changes, made in order.
pub open spec fn apply_changes(jar: Jar, cs: Seq<ChangeView>) -> Jar
    decreases cs.len(),
{
    if cs.len() == 0 {
        jar
    } else {
        apply_change(apply_changes(jar, cs.drop_last()), cs.last())
    }
}

/// What `get_private` reads: the value of a private cookie of that name.
pub open spec fn read_private(jar: Jar, name: Seq<char>) -> Option<Seq<char>> {
    if jar.contains_key(name) && jar[name].private {
        Some(jar[name].value)
    } else {
        None
    }
}

/// What `get` reads: the value of a plain cookie of that name.
pub open spec fn read_plain(jar: Jar, name: Seq<char>) -> Option<Seq<char>> {
    if jar.contains_key(name) && !jar[name].private {
        Some(jar[name].value)
    } else {
        None
    }
}

/// Sets a private cookie.
pub fn set_private(name: &str, value: String) -> (c: CookieChange)
    ensures
        c@ == (ChangeView { name: name@, value: Some(value@), private: true }),
{
    CookieChange { name: String::from_str(name), value: Some(value), private: true }
}

/// Removes a private cookie.
pub fn remove_private(name: &str) -> (c: CookieChange)
    ensures
        c@ == (ChangeView { name: name@, value: None, private: true }),
{
    CookieChange { name: String::from_str(name), value: None, private: true }
}

/// Sets a plain cookie.
pub fn set_plain(name: &str, value: String) -> (c: CookieChange)
    ensures
        c@ == (ChangeView { name: name@, value: Some(value@), private: false }),
{
    CookieChange { name: String::from_str(name), value: Some(value), private: false }
}

/// Removes a plain cookie.
pub fn remove_plain(name: &str) -> (c: CookieChange)
    ensures
        c@ == (ChangeView { name: name@, value: None, private: false }),
{
    CookieChange { name: String::from_str(name), value: None, private: false }
}

} // verus!
