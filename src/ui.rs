use vstd::prelude::*;

verus! {

/// The list of scene files that a picker window offers.
pub struct SelectGltfWindow {
    files: Vec<String>,
}

impl View for SelectGltfWindow {
    type V = Seq<String>;

    closed spec fn view(&self) -> Seq<String> {
        self.files@
    }
}

impl SelectGltfWindow {
    pub fn new(files: Vec<String>) -> (r: Self)
        ensures
            r@ == files@,
    {
        SelectGltfWindow { files }
    }

    pub fn files(&self) -> (r: &Vec<String>)
        ensures
            r@ == self@,
    {
        &self.files
    }
}

} // verus!
