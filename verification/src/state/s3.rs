//! Where the site's S3 bucket is, and how it is reached.
use vstd::prelude::*;
use crate::text::owned;

verus! {

/// An S3 bucket: its name, its region and endpoint, and the keys it is reached with.
pub struct S3Bucket {
    pub bucket_name: String,
    pub region: String,
    pub endpoint: String,
    pub access_key: String,
    pub secret_key: String,
}

impl S3Bucket {
    /// The bucket the settings name, in the region `auto` at `endpoint`.
    pub fn new(access_key: String, secret_key: String, bucket_name: String, endpoint: String) -> (b: S3Bucket)
        ensures
            b.bucket_name == bucket_name,
            b.region@ == "auto"@,
            b.endpoint == endpoint,
            b.access_key == access_key,
            b.secret_key == secret_key,
    {
        S3Bucket { bucket_name, region: owned("auto"), endpoint, access_key, secret_key }
    }
}

} // verus!
