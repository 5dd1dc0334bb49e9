use vstd::prelude::*;
use std::collections::HashMap;

verus! {

/// The screen that tells who made the game.
pub struct AboutScene {
    text: String,
}

impl AboutScene {
    pub closed spec fn text_view(self) -> Seq<char> {
        self.text@
    }

    /// Creates the screen; it shows the developer's credit, whatever the arguments.
    pub fn spawn(name_args: HashMap<&str, &str>) -> (r: Self)
        ensures
            r.text_view() == "dev: frostar"@,
    {
        AboutScene { text: String::from_str("dev: frostar") }
    }

    /// The text the screen shows.
    pub fn text(&self) -> (r: &str)
        ensures
            r@ == self.text_view(),
    {
        self.text.as_str()
    }
}

} // verus!
