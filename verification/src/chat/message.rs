use vstd::prelude::*;

verus! {

/// A chat message. On the wire it is the JSON text that serde_json renders for
/// it, written as a text.
pub struct Message {
    pub text: String,
}

} // verus!
