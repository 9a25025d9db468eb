use crate::uri::Uri;
use vstd::prelude::*;

verus! {

/// A prefix and the URI that it abbreviates.
#[derive(Debug, PartialEq, Eq)]
pub struct Namespace {
    prefix: String,
    uri: Uri,
}

impl Clone for Namespace {
    fn clone(&self) -> (copy: Namespace)
        ensures
            copy.prefix_view() == self.prefix_view(),
            copy.uri_view() == self.uri_view(),
    {
        Namespace { prefix: self.prefix.clone(), uri: self.uri.clone() }
    }
}

impl Namespace {
    pub closed spec fn prefix_view(&self) -> Seq<char> {
        self.prefix@
    }

    pub closed spec fn uri_view(&self) -> Seq<char> {
        self.uri@
    }

    /// The namespace that lets `prefix` stand for `uri`.
    pub fn new(prefix: String, uri: Uri) -> (namespace: Namespace)
        ensures
            namespace.prefix_view() == prefix@,
            namespace.uri_view() == uri@,
    {
        Namespace { prefix, uri }
    }

    /// The prefix.
    pub fn prefix(&self) -> (prefix: &String)
        ensures
            prefix@ == self.prefix_view(),
    {
        &self.prefix
    }

    /// The URI that the prefix stands for.
    pub fn uri(&self) -> (uri: &Uri)
        ensures
            uri@ == self.uri_view(),
    {
        &self.uri
    }
}

} // verus!
