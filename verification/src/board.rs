use vstd::prelude::*;

verus! {

/// A partial edit to a post: each field is changed when given and
/// kept when absent.
pub struct UpdatePostRequest {
    pub title: Option<String>,
    pub content: Option<String>,
}

} // verus!
