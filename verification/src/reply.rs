//! What a route answers when it redirects: where to, an optional flash
//! message, and the cookie changes it makes.

use vstd::prelude::*;
use crate::cookies::{changes_view, ChangeView, CookieChange};

verus! {

#[derive(PartialEq, Eq, Structural, Clone, Copy)]
pub enum FlashKind {
    Success,
    Error,
}

/// A message shown once on the next page.
pub struct Flash {
    pub kind: FlashKind,
    pub message: String,
}

/// A redirect to `location`, with an optional flash message and the cookie
/// changes made on the way.
pub struct Reply {
    pub location: String,
    pub flash: Option<Flash>,
    pub cookies: Vec<CookieChange>,
}

/// A reply as plain values.
pub struct ReplyView {
    pub location: Seq<char>,
    pub flash: Option<(FlashKind, Seq<char>)>,
    pub cookies: Seq<ChangeView>,
}

impl View for Reply {
    type V = ReplyView;

    open spec fn view(&self) -> ReplyView {
        ReplyView {
            location: self.location@,
            flash: match self.flash {
                Some(f) => Some((f.kind, f.message@)),
                None => None,
            },
            cookies: changes_view(self.cookies@),
        }
    }
}

/// A plain redirect.
pub fn redirect(location: &str) -> (r: Reply)
    ensures
        r@ == (ReplyView { location: location@, flash: None, cookies: Seq::empty() }),
{
    let r = Reply { location: String::from_str(location), flash: None, cookies: Vec::new() };
    assert(changes_view(r.cookies@) =~= Seq::<ChangeView>::empty());
    r
}

/// A redirect with a flash message and cookie changes.
pub fn flash_redirect(location: &str, kind: FlashKind, message: &str, cookies: Vec<CookieChange>) -> (r:
    Reply)
    ensures
        r@ == (ReplyView {
            location: location@,
            flash: Some((kind, message@)),
            cookies: changes_view(cookies@),
        }),
{
    Reply {
        location: String::from_str(location),
        flash: Some(Flash { kind, message: String::from_str(message) }),
        cookies,
    }
}

/// A redirect with a flash message and no cookie changes.
pub fn flash_only(location: &str, kind: FlashKind, message: &str) -> (r: Reply)
    ensures
        r@ == (ReplyView {
            location: location@,
            flash: Some((kind, message@)),
            cookies: Seq::empty(),
        }),
{
    let r = flash_redirect(location, kind, message, Vec::new());
    assert(r@.cookies =~= Seq::<ChangeView>::empty());
    r
}

} // verus!
