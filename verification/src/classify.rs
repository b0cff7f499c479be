//! Entry-point classifier: maps an input file's base name (extension
//! stripped) to the canonical target entry-point name, going by the fixed
//! filename suffix and substring conventions. Unmatched names mean "no
//! renaming", which is a valid outcome, not an error.

use vstd::prelude::*;
use vstd::string::*;

use crate::scan::{contains_exec, contains_seq, ends_with, ends_with_exec};

verus! {

/// Filename suffix marking a vertex-stage shader.
pub open spec fn vertex_suffix() -> Seq<u8> {
    "_vertex".spec_bytes()
}

/// Filename suffix marking a fragment-stage shader.
pub open spec fn fragment_suffix() -> Seq<u8> {
    "_fragment".spec_bytes()
}

/// Filename substring marking the overlay variant of an entry point.
pub open spec fn overlay_marker() -> Seq<u8> {
    "_overlay_".spec_bytes()
}

/// Canonical name for an overlay vertex entry point.
pub open spec fn overlay_vertex_name() -> Seq<u8> {
    "overlay_vertex".spec_bytes()
}

/// Canonical name for the default vertex entry point.
pub open spec fn main_vertex_name() -> Seq<u8> {
    "main_vertex".spec_bytes()
}

/// Canonical name for an overlay fragment entry point.
pub open spec fn overlay_fragment_name() -> Seq<u8> {
    "overlay_fragment".spec_bytes()
}

/// Canonical name for the default fragment entry point.
pub open spec fn main_fragment_name() -> Seq<u8> {
    "main_fragment".spec_bytes()
}

/// The classification rule: first match wins. A stem ending in the vertex
/// suffix names a vertex entry point (overlay variant when the overlay
/// marker occurs in the stem); likewise for the fragment suffix; any other
/// stem asks for no renaming.
pub open spec fn classify_spec(stem: Seq<u8>) -> Option<Seq<u8>> {
    if ends_with(stem, vertex_suffix()) {
        if contains_seq(stem, overlay_marker()) {
            Some(overlay_vertex_name())
        } else {
            Some(main_vertex_name())
        }
    } else if ends_with(stem, fragment_suffix()) {
        if contains_seq(stem, overlay_marker()) {
            Some(overlay_fragment_name())
        } else {
            Some(main_fragment_name())
        }
    } else {
        None
    }
}

fn vertex_suffix_bytes() -> (r: Vec<u8>)
    ensures
        r@ == vertex_suffix(),
{
    "_vertex".as_bytes_vec()
}

fn fragment_suffix_bytes() -> (r: Vec<u8>)
    ensures
        r@ == fragment_suffix(),
{
    "_fragment".as_bytes_vec()
}

fn overlay_marker_bytes() -> (r: Vec<u8>)
    ensures
        r@ == overlay_marker(),
{
    "_overlay_".as_bytes_vec()
}

/// The canonical entry-point names as byte strings.
pub fn overlay_vertex_name_bytes() -> (r: Vec<u8>)
    ensures
        r@ == overlay_vertex_name(),
{
    "overlay_vertex".as_bytes_vec()
}

/// See [`overlay_vertex_name_bytes`].
pub fn main_vertex_name_bytes() -> (r: Vec<u8>)
    ensures
        r@ == main_vertex_name(),
{
    "main_vertex".as_bytes_vec()
}

/// See [`overlay_vertex_name_bytes`].
pub fn overlay_fragment_name_bytes() -> (r: Vec<u8>)
    ensures
        r@ == overlay_fragment_name(),
{
    "overlay_fragment".as_bytes_vec()
}

/// See [`overlay_vertex_name_bytes`].
pub fn main_fragment_name_bytes() -> (r: Vec<u8>)
    ensures
        r@ == main_fragment_name(),
{
    "main_fragment".as_bytes_vec()
}

/// Classifies a file stem, producing the target entry-point name, or `None`
/// when the generated output is to pass through unchanged.
pub fn determine_entrypoint_name(file_stem: &[u8]) -> (r: Option<Vec<u8>>)
    ensures
        match r {
            Some(name) => classify_spec(file_stem@) == Some(name@),
            None => classify_spec(file_stem@) is None,
        },
{
    let vs = vertex_suffix_bytes();
    let fs = fragment_suffix_bytes();
    if ends_with_exec(file_stem, vs.as_slice()) {
        let om = overlay_marker_bytes();
        if contains_exec(file_stem, om.as_slice()) {
            Some(overlay_vertex_name_bytes())
        } else {
            Some(main_vertex_name_bytes())
        }
    } else if ends_with_exec(file_stem, fs.as_slice()) {
        let om = overlay_marker_bytes();
        if contains_exec(file_stem, om.as_slice()) {
            Some(overlay_fragment_name_bytes())
        } else {
            Some(main_fragment_name_bytes())
        }
    } else {
        None
    }
}

} // verus!
