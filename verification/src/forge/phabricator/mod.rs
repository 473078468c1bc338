//! Phabricator, through the `arc` command.
//!
//! `arc diff` amends the commit to add a `Differential Revision:` trailer. To keep this
//! trailer in the branch history, submit and update pause an interactive rebase at the
//! commit, so that the amendment happens in place.
use vstd::prelude::*;

use crate::text::views;

pub mod depend;
pub mod message;
pub mod sync;
pub mod trailer;
pub mod upload;

verus! {

/// Phabricator.
pub struct Phabricator;

/// The trailers of a commit's body that outlive a squash.
pub open spec fn trailers(body: Seq<char>) -> Seq<Seq<char>> {
    message::revision_trailers(body)
}

impl Phabricator {
    /// The `Differential Revision:` lines of a commit's body.
    pub fn get_trailers(&self, body: &str) -> (r: Vec<String>)
        ensures
            views::strs(r@) == trailers(body@),
    {
        message::read_trailers(body)
    }
}

} // verus!
