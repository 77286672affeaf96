pub mod pipeline;
pub mod round_plan;

use vstd::prelude::*;
use vstd::std_specs::convert::IntoSpec;
use crate::processors::{EchoProcessor, InputProcessor, OutputProcessor};

verus! {

/// Any of the processors a pipeline of observed processors can hold.
#[derive(Debug)]
pub enum AnyProcessor {
    Input(InputProcessor),
    Echo(EchoProcessor),
    Output(OutputProcessor),
}

impl From<InputProcessor> for AnyProcessor {
    fn from(p: InputProcessor) -> (r: Self) {
        AnyProcessor::Input(p)
    }
}

impl vstd::std_specs::convert::FromSpecImpl<InputProcessor> for AnyProcessor {
    open spec fn obeys_from_spec() -> bool {
        true
    }

    open spec fn from_spec(p: InputProcessor) -> Self {
        AnyProcessor::Input(p)
    }
}

impl From<EchoProcessor> for AnyProcessor {
    fn from(p: EchoProcessor) -> (r: Self) {
        AnyProcessor::Echo(p)
    }
}

impl vstd::std_specs::convert::FromSpecImpl<EchoProcessor> for AnyProcessor {
    open spec fn obeys_from_spec() -> bool {
        true
    }

    open spec fn from_spec(p: EchoProcessor) -> Self {
        AnyProcessor::Echo(p)
    }
}

impl From<OutputProcessor> for AnyProcessor {
    fn from(p: OutputProcessor) -> (r: Self) {
        AnyProcessor::Output(p)
    }
}

impl vstd::std_specs::convert::FromSpecImpl<OutputProcessor> for AnyProcessor {
    open spec fn obeys_from_spec() -> bool {
        true
    }

    open spec fn from_spec(p: OutputProcessor) -> Self {
        AnyProcessor::Output(p)
    }
}

/// A pipeline of observed processors, served over a websocket.
#[derive(Debug)]
pub struct Pipeline {
    processors: Vec<AnyProcessor>,
}

impl View for Pipeline {
    type V = Seq<AnyProcessor>;

    /// The processors the pipeline holds, in the order frames pass through them.
    closed spec fn view(&self) -> Seq<AnyProcessor> {
        self.processors@
    }
}

impl Pipeline {
    /// An empty pipeline.
    pub fn new() -> (p: Self)
        ensures
            p@ == Seq::<AnyProcessor>::empty(),
    {
        Pipeline { processors: Vec::new() }
    }

    /// Appends a processor: frames reach it after every processor added before.
    pub fn add_processor<T: Into<AnyProcessor>>(&mut self, processor: T)
        ensures
            <T as IntoSpec<AnyProcessor>>::obeys_into_spec() ==> final(self)@ == old(self)@.push(
                processor.into_spec(),
            ),
            final(self)@.len() == old(self)@.len() + 1,
            final(self)@.drop_last() == old(self)@,
    {
        let p: AnyProcessor = processor.into();
        self.processors.push(p);
        assert(self@.drop_last() =~= old(self)@);
    }

    /// The processors, in the order frames pass through them.
    pub fn processors(&self) -> (r: &Vec<AnyProcessor>)
        ensures
            r@ == self@,
    {
        &self.processors
    }
}

} // verus!
