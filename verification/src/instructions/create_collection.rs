//! Creating a collection that the program governs.
use vstd::prelude::*;

use crate::attributes::{stake_count, stake_count_attribute, view_all, Attribute};

verus! {

/// The collection to create: its name and uri, the program authority as its
/// update authority, and an Attributes plugin with these attributes.
#[derive(Debug)]
pub struct CollectionPlan {
    pub name: String,
    pub uri: String,
    pub update_authority: [u8; 32],
    pub attributes: Vec<Attribute>,
}

/// The accounts of a collection creation, as the program reads them.
pub struct CreateCollection {
    /// The program authority address derived for the new collection.
    pub prog_auth: [u8; 32],
}

impl CreateCollection {
    /// The collection to create with `name` and `uri`: governed by the program
    /// authority, with a stake count of zero.
    pub fn create_collection(&self, name: String, uri: String) -> (p: CollectionPlan)
        ensures
            p.name@ == name@,
            p.uri@ == uri@,
            p.update_authority@ == self.prog_auth@,
            view_all(p.attributes@) == seq![stake_count(0)],
    {
        let mut attributes: Vec<Attribute> = Vec::new();
        attributes.push(stake_count_attribute(0));
        assert(view_all(attributes@) =~= seq![stake_count(0)]);
        CollectionPlan { name, uri, update_authority: self.prog_auth, attributes }
    }
}

} // verus!
