//! Converts a drawing session file — an XML document embedding four
//! base64-encoded binary arrays that describe freehand curves — into a
//! vector drawing: one stroked path per curve, plus a computed canvas size.
//!
//! The pipeline has three stages. The locator ([`xml`]) finds the four
//! labelled payloads by their position relative to the label text nodes. The
//! decoder ([`codec`]) turns each payload into a sequence of 32-bit words,
//! read little-endian. The renderer ([`render`]) partitions the flat point
//! stream into curves by the per-curve point counts and emits the path
//! commands, stroke color, opacity and width of each curve.
//!
//! Coordinates and stroke widths are 32-bit floats; this crate carries them
//! as their bit patterns (`u32`) and leaves formatting and float arithmetic
//! to its callers.

use vstd::prelude::*;

pub mod codec;
pub mod error;
pub mod render;
pub mod xml;

verus! {

use crate::codec::{base64_decoded, le_words};
use crate::error::{Label, SessionError};
use crate::render::{drawing_matches, valid_curve_data, Drawing};
use crate::xml::{locate_error, locate_ok, payload_for, xml_nodes_of, SessionPayload, XmlNode};

/// The decoded count sequence of a payload's bytes: each 32-bit word read as
/// a signed integer.
pub open spec fn counts_of(b: Seq<u8>) -> Seq<i32> {
    le_words(b).map_values(|w: u32| w as i32)
}

/// Decodes the four located payloads and renders the drawing. Fails on the
/// first invalid base64 payload, in the order counts, points, widths,
/// colors; after that, fails exactly when the decoded sequences are
/// inconsistent.
pub fn render_payload(payload: &SessionPayload) -> (r: Result<Drawing, SessionError>)
    ensures
        ({
            let counts_b = base64_decoded(payload.point_counts@);
            let points_b = base64_decoded(payload.points@);
            let widths_b = base64_decoded(payload.widths@);
            let colors_b = base64_decoded(payload.colors@);
            &&& (counts_b is None ==> r == Err::<Drawing, SessionError>(
                SessionError::InvalidBase64(Label::PointCounts),
            ))
            &&& (counts_b is Some && points_b is None ==> r == Err::<Drawing, SessionError>(
                SessionError::InvalidBase64(Label::Points),
            ))
            &&& (counts_b is Some && points_b is Some && widths_b is None ==> r == Err::<
                Drawing,
                SessionError,
            >(SessionError::InvalidBase64(Label::Widths)))
            &&& (counts_b is Some && points_b is Some && widths_b is Some && colors_b is None
                ==> r == Err::<Drawing, SessionError>(SessionError::InvalidBase64(Label::Colors)))
            &&& (counts_b is Some && points_b is Some && widths_b is Some && colors_b is Some
                ==> {
                let counts = counts_of(counts_b.unwrap());
                let points = le_words(points_b.unwrap());
                let widths = le_words(widths_b.unwrap());
                let colors = le_words(colors_b.unwrap());
                &&& (r is Ok <==> valid_curve_data(points, counts, widths, colors))
                &&& (r is Err ==> r == Err::<Drawing, SessionError>(
                    SessionError::InvalidCurveData,
                ))
                &&& (r is Ok ==> drawing_matches(r.unwrap(), points, counts, widths, colors))
            })
        }),
{
    let point_counts = match codec::decode_i32s(&payload.point_counts, Label::PointCounts) {
        Ok(v) => v,
        Err(e) => {
            return Err(e);
        },
    };
    let points = match codec::decode_u32s(&payload.points, Label::Points) {
        Ok(v) => v,
        Err(e) => {
            return Err(e);
        },
    };
    let widths = match codec::decode_u32s(&payload.widths, Label::Widths) {
        Ok(v) => v,
        Err(e) => {
            return Err(e);
        },
    };
    let colors = match codec::decode_u32s(&payload.colors, Label::Colors) {
        Ok(v) => v,
        Err(e) => {
            return Err(e);
        },
    };
    render::draw(&points, &point_counts, &widths, &colors)
}

/// The located payload of label `l` decodes as base64.
pub open spec fn session_payload_ok(tree: Seq<XmlNode>, l: Label) -> bool {
    base64_decoded(payload_for(tree, l)) is Some
}

/// The bytes the located payload of label `l` decodes to. Meaningful when
/// `session_payload_ok` holds of it.
pub open spec fn session_bytes(tree: Seq<XmlNode>, l: Label) -> Seq<u8> {
    base64_decoded(payload_for(tree, l)).unwrap()
}

/// All four located payloads decode as base64.
pub open spec fn session_decode_ok(tree: Seq<XmlNode>) -> bool {
    &&& session_payload_ok(tree, Label::PointCounts)
    &&& session_payload_ok(tree, Label::Points)
    &&& session_payload_ok(tree, Label::Widths)
    &&& session_payload_ok(tree, Label::Colors)
}

/// The error reported when a located payload is not valid base64: the first
/// failing payload in the order point counts, points, widths, colors.
/// Meaningful only when `session_decode_ok` does not hold.
pub open spec fn session_decode_error(tree: Seq<XmlNode>) -> SessionError {
    if !session_payload_ok(tree, Label::PointCounts) {
        SessionError::InvalidBase64(Label::PointCounts)
    } else if !session_payload_ok(tree, Label::Points) {
        SessionError::InvalidBase64(Label::Points)
    } else if !session_payload_ok(tree, Label::Widths) {
        SessionError::InvalidBase64(Label::Widths)
    } else {
        SessionError::InvalidBase64(Label::Colors)
    }
}

/// The per-curve point counts a session tree decodes to.
pub open spec fn session_counts(tree: Seq<XmlNode>) -> Seq<i32> {
    counts_of(session_bytes(tree, Label::PointCounts))
}

/// The flat point coordinates a session tree decodes to, as float bits.
pub open spec fn session_points(tree: Seq<XmlNode>) -> Seq<u32> {
    le_words(session_bytes(tree, Label::Points))
}

/// The per-curve stroke widths a session tree decodes to, as float bits.
pub open spec fn session_widths(tree: Seq<XmlNode>) -> Seq<u32> {
    le_words(session_bytes(tree, Label::Widths))
}

/// The per-curve packed colors a session tree decodes to.
pub open spec fn session_colors(tree: Seq<XmlNode>) -> Seq<u32> {
    le_words(session_bytes(tree, Label::Colors))
}

/// Runs the whole pipeline on the text of a session file: parses the XML,
/// locates the four labelled base64 payloads, decodes them into the point,
/// count, width and color sequences, and renders one path per curve. Fails
/// on the first error: unparsable XML, a missing label or broken layout
/// around it, invalid base64, or inconsistent sequences.
pub fn convert_session(text: &str) -> (r: Result<Drawing, SessionError>)
    ensures
        ({
            let nodes = xml_nodes_of(text@);
            &&& (nodes is None ==> r == Err::<Drawing, SessionError>(SessionError::XmlParse))
            &&& (nodes is Some ==> {
                let t = nodes.unwrap();
                &&& (!locate_ok(t) ==> r == Err::<Drawing, SessionError>(locate_error(t)))
                &&& (locate_ok(t) && !session_decode_ok(t) ==> r == Err::<Drawing, SessionError>(
                    session_decode_error(t),
                ))
                &&& (locate_ok(t) && session_decode_ok(t) ==> {
                    &&& (r is Ok <==> valid_curve_data(
                        session_points(t),
                        session_counts(t),
                        session_widths(t),
                        session_colors(t),
                    ))
                    &&& (r is Err ==> r == Err::<Drawing, SessionError>(
                        SessionError::InvalidCurveData,
                    ))
                    &&& (r is Ok ==> drawing_matches(
                        r.unwrap(),
                        session_points(t),
                        session_counts(t),
                        session_widths(t),
                        session_colors(t),
                    ))
                })
            })
        }),
{
    let tree = match xml::parse_document(text) {
        Some(t) => t,
        None => {
            return Err(SessionError::XmlParse);
        },
    };
    let payload = match xml::locate_payloads(&tree) {
        Ok(p) => p,
        Err(e) => {
            return Err(e);
        },
    };
    match render_payload(&payload) {
        Ok(d) => Ok(d),
        Err(e) => Err(e),
    }
}

/// Splits a packed 32-bit color into its four byte components, least
/// significant byte first: `[bits 0-7, bits 8-15, bits 16-23, bits 24-31]`.
/// Under the session file's color layout these are red, green, blue, alpha.
pub fn transform_u32_to_array_of_u8_le(x: u32) -> (r: [u8; 4])
    ensures
        r[0] == (x & 0xff) as u8,
        r[1] == ((x >> 8) & 0xff) as u8,
        r[2] == ((x >> 16) & 0xff) as u8,
        r[3] == ((x >> 24) & 0xff) as u8,
{
    let b1: u8 = ((x >> 24) & 0xff) as u8;
    let b2: u8 = ((x >> 16) & 0xff) as u8;
    let b3: u8 = ((x >> 8) & 0xff) as u8;
    let b4: u8 = (x & 0xff) as u8;
    [b4, b3, b2, b1]
}

} // verus!
