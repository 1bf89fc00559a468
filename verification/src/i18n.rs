//! Display strings for the presentation layer.
//!
//! The core carries labels as plain, pre-rendered text and never depends on
//! any localization state or initialization order.

use vstd::prelude::*;

verus! {

/// A display string, held pre-rendered.
#[derive(Debug)]
pub struct LocalizedString {
    text: String,
}

impl View for LocalizedString {
    type V = Seq<char>;

    closed spec fn view(&self) -> Seq<char> {
        self.text@
    }
}

impl LocalizedString {
    pub fn new(text: String) -> (r: Self)
        ensures
            r@ == text@,
    {
        Self { text }
    }

    /// The rendered text of the label.
    pub fn render(&self) -> (r: String)
        ensures
            r@ == self@,
    {
        self.text.clone()
    }
}

impl Clone for LocalizedString {
    fn clone(&self) -> (r: Self)
        ensures
            r == *self,
    {
        Self { text: self.text.clone() }
    }
}

} // verus!
