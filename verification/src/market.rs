use vstd::prelude::*;

verus! {

/// The challenge market. Its requests are functions of a
/// [`Context`](crate::context::Context).
pub struct ChallengeMarket;

} // verus!
