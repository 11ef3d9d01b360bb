//! Contributors as they are counted: a name and an e-mail address, either of
//! which may be unknown.

use vstd::prelude::*;

verus! {

/// What identifies a contributor in specifications. Two records are the same
/// contributor exactly when both fields are equal, an unknown field being
/// equal to an unknown field only.
pub struct AuthorKey {
    pub name: Option<Seq<char>>,
    pub email: Option<Seq<char>>,
}

/// The characters of an optional text field.
pub open spec fn text_of(field: Option<String>) -> Option<Seq<char>> {
    match field {
        Some(text) => Some(text@),
        None => None,
    }
}

/// A contributor: the name and the e-mail address of an author signature.
#[derive(Debug)]
pub struct AuthorIdentity {
    pub name: Option<String>,
    pub email: Option<String>,
}

impl View for AuthorIdentity {
    type V = AuthorKey;

    open spec fn view(&self) -> AuthorKey {
        AuthorKey { name: text_of(self.name), email: text_of(self.email) }
    }
}

/// Whether two optional text fields hold the same characters.
pub fn same_text(a: &Option<String>, b: &Option<String>) -> (r: bool)
    ensures
        r == (text_of(*a) == text_of(*b)),
{
    match a {
        Some(x) => match b {
            Some(y) => *x == *y,
            None => false,
        },
        None => b.is_none(),
    }
}

/// A copy of an optional text field.
fn copy_text(field: &Option<String>) -> (r: Option<String>)
    ensures
        text_of(r) == text_of(*field),
{
    match field {
        Some(text) => Some(text.clone()),
        None => None,
    }
}

impl AuthorIdentity {
    /// The contributor with the given name and e-mail address.
    pub fn new(name: Option<String>, email: Option<String>) -> (author: AuthorIdentity)
        ensures
            author.name == name,
            author.email == email,
    {
        AuthorIdentity { name, email }
    }

    /// The contributor of whom neither name nor e-mail address is known.
    pub fn unknown() -> (author: AuthorIdentity)
        ensures
            author@ == (AuthorKey { name: None, email: None }),
    {
        AuthorIdentity { name: None, email: None }
    }

    /// Whether two records name the same contributor.
    pub fn same(&self, other: &AuthorIdentity) -> (r: bool)
        ensures
            r == (self@ == other@),
    {
        same_text(&self.name, &other.name) && same_text(&self.email, &other.email)
    }
}

impl Clone for AuthorIdentity {
    fn clone(&self) -> (copy: AuthorIdentity)
        ensures
            copy@ == self@,
    {
        AuthorIdentity { name: copy_text(&self.name), email: copy_text(&self.email) }
    }
}

impl PartialEq for AuthorIdentity {
    fn eq(&self, other: &AuthorIdentity) -> (r: bool) {
        self.same(other)
    }
}

impl Eq for AuthorIdentity {}

impl vstd::std_specs::cmp::PartialEqSpecImpl for AuthorIdentity {
    open spec fn obeys_eq_spec() -> bool {
        true
    }

    open spec fn eq_spec(&self, other: &AuthorIdentity) -> bool {
        self@ == other@
    }
}

} // verus!
