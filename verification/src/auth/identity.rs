//! An authenticated caller.

use vstd::prelude::*;
use vstd::string::*;

use crate::json::{clone_fields, fields, Json, JsonV};
use crate::text::{clone_strings, views};

verus! {

/// An authenticated caller.
#[derive(Debug)]
pub struct Identity {
    pub id: String,
    pub identity_type: String,
    pub roles: Vec<String>,
    pub attrs: Vec<(String, Json)>,
}

/// What an identity denotes.
#[verifier::ext_equal]
pub struct IdentityV {
    pub id: Seq<char>,
    pub identity_type: Seq<char>,
    pub roles: Seq<Seq<char>>,
    pub attrs: Seq<(Seq<char>, JsonV)>,
}

impl View for Identity {
    type V = IdentityV;

    open spec fn view(&self) -> IdentityV {
        IdentityV {
            id: self.id@,
            identity_type: self.identity_type@,
            roles: views(self.roles@),
            attrs: fields(self.attrs@),
        }
    }
}

/// What an optional identity denotes.
pub open spec fn opt_identity(i: Option<Identity>) -> Option<IdentityV> {
    match i {
        Some(x) => Some(x@),
        None => None,
    }
}

/// What an optional borrowed identity denotes.
pub open spec fn opt_identity_ref(i: Option<&Identity>) -> Option<IdentityV> {
    match i {
        Some(x) => Some(x@),
        None => None,
    }
}

impl Identity {
    /// An identity of the given parts.
    pub fn new(
        id: String,
        identity_type: String,
        roles: Vec<String>,
        attrs: Vec<(String, Json)>,
    ) -> (r: Identity)
        ensures
            r@ == (IdentityV {
                id: id@,
                identity_type: identity_type@,
                roles: views(roles@),
                attrs: fields(attrs@),
            }),
    {
        Identity { id, identity_type, roles, attrs }
    }

    /// A copy of the identity.
    pub fn copy(&self) -> (r: Identity)
        ensures
            r@ == self@,
    {
        Identity {
            id: self.id.clone(),
            identity_type: self.identity_type.clone(),
            roles: clone_strings(&self.roles),
            attrs: clone_fields(&self.attrs),
        }
    }
}

impl Clone for Identity {
    fn clone(&self) -> (r: Self)
        ensures
            r@ == self@,
    {
        self.copy()
    }
}

} // verus!
