//! The models: what is decided around their arithmetic.

pub mod bert;
pub mod bigvgan;
pub mod decoding;
pub mod gpt;
pub mod grid;
pub mod hubert;
pub mod masks;
pub mod mrte;
pub mod placed;
pub mod sampling;
pub mod semantic_tokenizer;
pub mod sovits;
pub mod sovits_decoder;
pub mod sovits_encp;
pub mod sovits_encq;
pub mod sovits_flow;
pub mod sovits_ref_enc;
pub mod token_setup;
pub mod transformer;
pub mod wav2vec2;
pub mod weights;

use crate::config::{device_name, Device};
use crate::Error;
use vstd::prelude::*;

pub use bert::BertModel;
pub use transformer::TransformerConfig;

verus! {

/// What every model has.
pub trait Model {
    /// Where the model runs.
    spec fn place(&self) -> Device;

    /// The name of the device on which the model runs.
    fn device(&self) -> (r: &str)
        ensures
            r@ == device_name(self.place()),
    ;

    /// Moves the model to a device.
    fn to_device(&mut self, device: &str) -> (r: Result<(), Error>)
        ensures
            r is Err ==> final(self).place() == old(self).place(),
    ;
}

} // verus!
