use vstd::prelude::*;
use vstd::string::StringExecFns;

verus! {

/// The distinguishable kinds of failure the OBJ and MTL parsers report.
#[derive(Clone, Copy, Debug, PartialEq, Eq, Structural)]
pub enum ObjErrorKind {
    /// A token that had to be a number failed to parse as one.
    MalformedNumber,
    /// A directive was missing a required argument token.
    MissingArgument,
    /// A face corner referenced a vertex-pool entry that does not exist.
    IndexOutOfRange,
    /// An MTL line started with a token outside the known directive set.
    UnrecognizedDirective,
    /// An MTL field-setting directive appeared before any `newmtl`.
    DirectiveBeforeMaterial,
}

/// A parse failure: the kind of fault plus the offending token or
/// directive, kept so that the caller can locate the problem.
#[derive(Clone, Debug)]
pub struct ObjError {
    pub kind: ObjErrorKind,
    pub detail: String,
}

impl ObjError {
    pub fn new(kind: ObjErrorKind, detail: &str) -> (e: ObjError)
        ensures
            e.kind == kind,
            e.detail@ == detail@,
    {
        ObjError { kind, detail: detail.to_owned() }
    }

    /// A human-readable description of the failure.
    pub fn message(&self) -> (m: String)
        ensures
            m@ == self.kind.spec_phrase()@ + self.detail@,
    {
        let mut m = self.kind.phrase().to_owned();
        m.append(self.detail.as_str());
        m
    }
}

impl ObjErrorKind {
    /// The fixed wording that introduces each kind of failure.
    pub fn phrase(&self) -> (p: &'static str)
        ensures
            p@ == self.spec_phrase()@,
    {
        match self {
            ObjErrorKind::MalformedNumber => "malformed number: ",
            ObjErrorKind::MissingArgument => "missing argument for directive: ",
            ObjErrorKind::IndexOutOfRange => "vertex index out of range: ",
            ObjErrorKind::UnrecognizedDirective => "unrecognized directive: ",
            ObjErrorKind::DirectiveBeforeMaterial => "directive before any newmtl: ",
        }
    }

    pub open spec fn spec_phrase(&self) -> &'static str {
        match self {
            ObjErrorKind::MalformedNumber => "malformed number: ",
            ObjErrorKind::MissingArgument => "missing argument for directive: ",
            ObjErrorKind::IndexOutOfRange => "vertex index out of range: ",
            ObjErrorKind::UnrecognizedDirective => "unrecognized directive: ",
            ObjErrorKind::DirectiveBeforeMaterial => "directive before any newmtl: ",
        }
    }
}

} // verus!
