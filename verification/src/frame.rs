pub mod frame;

use vstd::prelude::*;

verus! {

/// A text frame received over a websocket: the `content` member of the message.
#[derive(Clone, Debug)]
pub struct Frame {
    pub content: String,
}

impl Frame {
    /// A copy of the frame with the same content.
    pub fn copy(&self) -> (r: Frame)
        ensures
            r == *self,
    {
        Frame { content: self.content.clone() }
    }
}

} // verus!
