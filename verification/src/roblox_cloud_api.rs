//! The cloud API as far as the library holds it: the key.

use vstd::prelude::*;

verus! {

/// The cloud API with the key to use it.
pub struct RbxCloudApi {
    api_key: String,
}

impl RbxCloudApi {
    /// The key.
    pub closed spec fn spec_api_key(&self) -> String {
        self.api_key
    }

    /// The API with the key `api_key`.
    pub fn new(api_key: String) -> (api: RbxCloudApi)
        ensures
            api.spec_api_key() == api_key,
    {
        RbxCloudApi { api_key }
    }

    /// The key, for the header that carries it.
    pub fn api_key(&self) -> (key: &str)
        ensures
            key@ == self.spec_api_key()@,
    {
        self.api_key.as_str()
    }
}

} // verus!
