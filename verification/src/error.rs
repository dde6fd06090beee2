use vstd::prelude::*;

verus! {

/// Which of the four encoded arrays of a session file a value refers to.
#[derive(Clone, Copy, PartialEq, Eq, Structural, Debug)]
pub enum Label {
    Points,
    PointCounts,
    Widths,
    Colors,
}

/// Everything that can go wrong between the parsed document and the drawing.
#[derive(Clone, Copy, PartialEq, Eq, Structural, Debug)]
pub enum SessionError {
    /// The input text is not well-formed XML.
    XmlParse,
    /// The label for this array never occurs as a text node.
    MissingLabel(Label),
    /// The label occurs, but the key/value layout around it is broken.
    BrokenPath(Label),
    /// The payload found for this label is not valid base64.
    InvalidBase64(Label),
    /// The decoded sequences break the curve invariants.
    InvalidCurveData,
}

} // verus!
