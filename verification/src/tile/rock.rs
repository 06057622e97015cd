use vstd::prelude::*;

verus! {

/// An obstacle: it holds no train, lets none in and sends none out.
#[derive(Debug, Clone, Copy)]
pub struct Rock {}

impl Rock {
    /// A rock.
    pub fn new() -> (rock: Rock) {
        Rock {  }
    }
}

} // verus!
