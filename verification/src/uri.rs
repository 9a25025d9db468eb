use vstd::prelude::*;

verus! {

/// A URI, held as the text it was written with.
#[derive(Debug, PartialEq, Eq)]
pub struct Uri {
    uri: String,
}

impl View for Uri {
    type V = Seq<char>;

    closed spec fn view(&self) -> Seq<char> {
        self.uri@
    }
}

impl Clone for Uri {
    fn clone(&self) -> (copy: Uri)
        ensures
            copy@ == self@,
    {
        Uri { uri: self.uri.clone() }
    }
}

impl Uri {
    /// The URI that `uri` spells.
    pub fn new(uri: String) -> (u: Uri)
        ensures
            u@ == uri@,
    {
        Uri { uri }
    }

    /// The text of this URI.
    pub fn to_string(&self) -> (text: &String)
        ensures
            text@ == self@,
    {
        &self.uri
    }

    /// Lengthens this URI by `resource_path`.
    pub fn append_resource_path(&mut self, resource_path: &str)
        ensures
            final(self)@ == old(self)@ + resource_path@,
    {
        self.uri.append(resource_path);
    }
}

} // verus!
