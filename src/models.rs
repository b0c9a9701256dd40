use vstd::prelude::*;

verus! {

/// Candidate addresses returned by a postcode search.
#[derive(Clone, Debug, PartialEq, Eq)]
pub struct Address {
    pub data: Vec<AddressData>,
}

/// One candidate address: the identifier used to look it up, and the
/// human-readable label shown to the user.
#[derive(Clone, Debug, PartialEq, Eq)]
pub struct AddressData {
    pub value: String,
    pub label: String,
}

/// The schedule of one property.
#[derive(Clone, Debug, PartialEq, Eq)]
pub struct Bin {
    pub data: Data,
}

#[derive(Clone, Debug, PartialEq, Eq)]
pub struct Data {
    pub results_returned: String,
    pub tab_collections: Vec<TabCollection>,
}

/// One scheduled pickup of one waste stream on one date.
#[derive(Clone, Debug, PartialEq, Eq)]
pub struct TabCollection {
    pub colour: String,
    /// Free-form, locale-formatted, e.g. `Monday, 3 June 2024, Week 1`.
    pub date: String,
    pub tab_collection_type: String,
}

/// Answer to a property lookup.
#[derive(Clone, Debug, PartialEq, Eq)]
pub struct ProfileDataResponse {
    pub profile_data: ProfileData,
}

#[derive(Clone, Debug, PartialEq, Eq)]
pub struct ProfileData {
    pub property_uprn: String,
}

} // verus!
