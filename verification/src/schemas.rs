//! Plain data carried across the library's boundary: the create request,
//! its response, and the target bundle a short key resolves to.

use vstd::prelude::*;

verus! {

/// A request to register a new short link.
pub struct CreateUrlRequest {
    pub email: String,
    pub ios_deep_link: String,
    pub ios_fallback_url: String,
    pub android_deep_link: String,
    pub android_fallback_url: String,
    pub default_fallback_url: String,
    pub webhook_url: String,
    pub head_html: String,
}

/// Answer to a create request: whether a new record was made (`true`) or a
/// verification ticket was re-issued for an existing one (`false`).
pub struct CreateUrlResponse {
    pub is_created: bool,
}

/// The redirect-relevant projection of a link record: everything the
/// presentation layer needs to answer a resolution.
pub struct TargetBundle {
    pub ios_deep_link: String,
    pub ios_fallback_url: String,
    pub android_deep_link: String,
    pub android_fallback_url: String,
    pub default_fallback_url: String,
    pub webhook_url: String,
    pub head_html: String,
}

impl Clone for TargetBundle {
    fn clone(&self) -> (r: Self)
        ensures
            r == *self,
    {
        TargetBundle {
            ios_deep_link: self.ios_deep_link.clone(),
            ios_fallback_url: self.ios_fallback_url.clone(),
            android_deep_link: self.android_deep_link.clone(),
            android_fallback_url: self.android_fallback_url.clone(),
            default_fallback_url: self.default_fallback_url.clone(),
            webhook_url: self.webhook_url.clone(),
            head_html: self.head_html.clone(),
        }
    }
}

} // verus!
