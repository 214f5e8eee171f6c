//! Roles that a delegate can hold, with their names.

use vstd::prelude::*;

verus! {

/// A role delegated by the holder of a token.
#[derive(Clone, Copy, Debug, PartialEq, Eq, Structural)]
pub enum HolderDelegateRole {
    PrintDelegate,
}

impl HolderDelegateRole {
    /// The role's name.
    pub fn to_role_string(&self) -> (r: String)
        ensures
            r@ == "print_delegate"@,
    {
        "print_delegate".to_owned()
    }
}

/// A role delegated by the update authority of a metadata record.
#[derive(Clone, Copy, Debug, PartialEq, Eq, Structural)]
pub enum MetadataDelegateRole {
    AuthorityItem,
    Collection,
    Use,
    Data,
    ProgrammableConfig,
    DataItem,
    CollectionItem,
    ProgrammableConfigItem,
}

impl MetadataDelegateRole {
    /// The name of a role.
    pub open spec fn role_name(self) -> Seq<char> {
        match self {
            MetadataDelegateRole::AuthorityItem => "authority_item_delegate"@,
            MetadataDelegateRole::Collection => "collection_delegate"@,
            MetadataDelegateRole::Use => "use_delegate"@,
            MetadataDelegateRole::Data => "data_delegate"@,
            MetadataDelegateRole::ProgrammableConfig => "programmable_config_delegate"@,
            MetadataDelegateRole::DataItem => "data_item_delegate"@,
            MetadataDelegateRole::CollectionItem => "collection_item_delegate"@,
            MetadataDelegateRole::ProgrammableConfigItem => "prog_config_item_delegate"@,
        }
    }

    /// The role's name.
    pub fn to_role_string(&self) -> (r: String)
        ensures
            r@ == self.role_name(),
    {
        match self {
            MetadataDelegateRole::AuthorityItem => "authority_item_delegate".to_owned(),
            MetadataDelegateRole::Collection => "collection_delegate".to_owned(),
            MetadataDelegateRole::Use => "use_delegate".to_owned(),
            MetadataDelegateRole::Data => "data_delegate".to_owned(),
            MetadataDelegateRole::ProgrammableConfig => "programmable_config_delegate".to_owned(),
            MetadataDelegateRole::DataItem => "data_item_delegate".to_owned(),
            MetadataDelegateRole::CollectionItem => "collection_item_delegate".to_owned(),
            MetadataDelegateRole::ProgrammableConfigItem => "prog_config_item_delegate".to_owned(),
        }
    }
}

} // verus!
