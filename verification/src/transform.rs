//! The continuation capability stored in a handler.

use vstd::prelude::*;
use vstd::string::StringExecFns;
use crate::state::opt_view;

verus! {

/// A single-method capability object: the payload transformation a handler
/// applies when it fires. Implementors say what the transformation returns
/// with `spec_apply`, and `apply` is proved to return exactly that.
pub trait Transform: Sized {
    /// What the transformation returns, at the level of payload views.
    spec fn spec_apply(self, p: Option<Seq<char>>) -> Option<Seq<char>>;

    /// Apply the transformation to a payload.
    fn apply(&self, p: Option<String>) -> (r: Option<String>)
        ensures
            opt_view(r) == self.spec_apply(opt_view(p)),
    ;
}

/// Ready-made payload transformations over text.
pub enum TextTransform {
    /// Hand the payload back unchanged.
    Keep,
    /// Discard the payload and produce this one instead.
    SetTo(Option<String>),
    /// Append this text to a present payload; turn an absent payload into
    /// just this text.
    Append(String),
}

impl Transform for TextTransform {
    open spec fn spec_apply(self, p: Option<Seq<char>>) -> Option<Seq<char>> {
        match self {
            TextTransform::Keep => p,
            TextTransform::SetTo(v) => opt_view(v),
            TextTransform::Append(suffix) => (match p {
                Some(t) => Some(t + suffix@),
                None => Some(suffix@),
            }),
        }
    }

    fn apply(&self, p: Option<String>) -> (r: Option<String>) {
        match self {
            TextTransform::Keep => p,
            TextTransform::SetTo(v) => (match v {
                Some(s) => Some(s.clone()),
                None => None,
            }),
            TextTransform::Append(suffix) => (match p {
                Some(t) => Some(t.concat(suffix.as_str())),
                None => Some(String::from_str(suffix.as_str())),
            }),
        }
    }
}

} // verus!
