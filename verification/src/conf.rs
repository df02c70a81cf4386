//! Connection settings for the storage service.

use vstd::prelude::*;

verus! {

/// Connection settings: where the service is, who is calling, and whether
/// the bucket name goes into the URL path.
#[derive(Debug)]
pub struct AppConfig {
    pub endpoint_url: String,
    pub region: String,
    pub access_key: String,
    pub secret_key: String,
    pub path_style: bool,
}

impl Default for AppConfig {
    /// Empty settings: every field blank, subdomain-style addressing.
    fn default() -> (r: Self)
        ensures
            r.endpoint_url@ == Seq::<char>::empty(),
            r.region@ == Seq::<char>::empty(),
            r.access_key@ == Seq::<char>::empty(),
            r.secret_key@ == Seq::<char>::empty(),
            r.path_style == false,
    {
        AppConfig {
            endpoint_url: String::new(),
            region: String::new(),
            access_key: String::new(),
            secret_key: String::new(),
            path_style: false,
        }
    }
}

} // verus!
