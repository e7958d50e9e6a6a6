use vstd::prelude::*;

verus! {

/// The pane that shows the text of the highlighted note. It holds no state
/// of its own.
pub struct TextArea;

impl Default for TextArea {
    fn default() -> Self {
        Self
    }
}

} // verus!
