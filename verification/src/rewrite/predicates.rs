//! Comparisons that ignore case.
use vstd::prelude::*;

use crate::sql::{Edit, EditView};

verus! {

/// Rewrites `ILIKE` to `lower(x) LIKE lower(pattern)`.
pub struct ILikeRewriter;

impl ILikeRewriter {
    /// The change to an `ILIKE`.
    pub fn edit(&self) -> (r: Edit)
        ensures
            r@ == EditView::LikeThrough("lower"@),
    {
        Edit::LikeThrough("lower".to_owned())
    }
}

} // verus!
