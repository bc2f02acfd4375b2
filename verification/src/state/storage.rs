//! Where stored files live: an S3 bucket when one is configured, else the local disk.
use vstd::prelude::*;
use crate::state::s3::S3Bucket;

verus! {

/// Where stored files live.
pub enum VentStorage {
    S3(S3Bucket),
    Local,
}

impl VentStorage {
    /// The storage the environment asks for: the S3 bucket when the access key, the
    /// secret key, the bucket's name and its endpoint are all set, else the local disk.
    pub fn new(
        access_key: Option<String>,
        secret_key: Option<String>,
        bucket_name: Option<String>,
        endpoint: Option<String>,
    ) -> (s: VentStorage)
        ensures
            match (access_key, secret_key, bucket_name, endpoint) {
                (Some(a), Some(k), Some(n), Some(e)) => s matches VentStorage::S3(b)
                    && b.access_key == a && b.secret_key == k && b.bucket_name == n && b.endpoint == e
                    && b.region@ == "auto"@,
                _ => s is Local,
            },
    {
        match (access_key, secret_key, bucket_name, endpoint) {
            (Some(a), Some(k), Some(n), Some(e)) => VentStorage::S3(S3Bucket::new(a, k, n, e)),
            _ => VentStorage::Local,
        }
    }
}

} // verus!
