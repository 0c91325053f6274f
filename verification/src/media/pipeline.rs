//! Stages of a media processing pipeline.
use vstd::prelude::*;
use crate::media::interface::MediaError;

verus! {

/// A stage that hands its data on unchanged.
#[derive(Debug)]
pub struct PassThroughStage {
    name: &'static str,
}

impl PassThroughStage {
    /// The name of the stage.
    pub closed spec fn stage_name(&self) -> Seq<char> {
        self.name@
    }

    /// A stage named `name`.
    pub fn new(name: &'static str) -> (r: Self)
        ensures
            r.stage_name() == name@,
    {
        PassThroughStage { name }
    }

    /// The name of the stage.
    pub fn name(&self) -> (r: &'static str)
        ensures
            r@ == self.stage_name(),
    {
        self.name
    }

    /// Process a chunk: it comes back unchanged.
    pub fn process(&mut self, data: Vec<u8>) -> (r: Result<Vec<u8>, MediaError>)
        ensures
            r matches Ok(d) && d@ == data@,
            final(self).stage_name() == old(self).stage_name(),
    {
        Ok(data)
    }
}

} // verus!
