//! The whole pipeline over one input document: split, parse, transform,
//! render.

use vstd::prelude::*;

use crate::parse::{parse_document, parse_spec, ParseError};
use crate::render::{render_document, rendered_document};
use crate::split::{split_document, split_spec, SplitError};
use crate::transform::{opt_view, parts_view, transform, transform_spec, Mode, PathParts,
    PathPartsV, TransformError, TransformErrorV};
use crate::value::DocV;

verus! {

/// Why the pipeline rejected an input: the stage and its error.
#[derive(Debug, Clone, PartialEq, Eq)]
pub enum PipelineError {
    Split(SplitError),
    Parse(ParseError),
    Transform(TransformError),
}

/// The mathematical form of a pipeline error.
#[verifier::ext_equal]
pub enum PipelineErrorV {
    Split(SplitError),
    Parse(ParseError),
    Transform(TransformErrorV),
}

impl View for PipelineError {
    type V = PipelineErrorV;

    open spec fn view(&self) -> PipelineErrorV {
        match self {
            PipelineError::Split(e) => PipelineErrorV::Split(*e),
            PipelineError::Parse(e) => PipelineErrorV::Parse(*e),
            PipelineError::Transform(e) => PipelineErrorV::Transform(e@),
        }
    }
}

/// The pipeline's product: the rendered output document, the mismatch
/// flag, and, in path-deriving mode, the path components.
#[derive(Debug, Clone, PartialEq, Eq)]
pub struct ProcessOutput {
    pub rendered: Vec<u8>,
    pub date_mismatch: bool,
    pub path_parts: Option<PathParts>,
}

/// What processing an input yields: the stages in order, each feeding
/// the next, the first failure fatal.
pub open spec fn process_spec(
    input: Seq<u8>,
    mode: Mode,
    craw: Seq<u8>,
    cnorm: Seq<u8>,
    unorm: Option<Seq<u8>>,
) -> Result<(Seq<u8>, bool, Option<PathPartsV>), PipelineErrorV> {
    match split_spec(input) {
        Err(e) => Err(PipelineErrorV::Split(e)),
        Ok((header, body)) => match parse_spec(header) {
            Err(e) => Err(PipelineErrorV::Parse(e)),
            Ok(d) => match transform_spec(d, mode, craw, cnorm, unorm) {
                Err(e) => Err(PipelineErrorV::Transform(e)),
                Ok(o) => Ok((rendered_document(o.doc, body), o.date_mismatch, o.path_parts)),
            },
        },
    }
}

/// Runs the whole pipeline on one input, as `process_spec` says.
pub fn process_document(
    input: &[u8],
    mode: Mode,
    created_raw: &Vec<u8>,
    created_norm: Vec<u8>,
    updated_norm: Option<Vec<u8>>,
) -> (r: Result<ProcessOutput, PipelineError>)
    ensures
        match r {
            Ok(o) => process_spec(input@, mode, created_raw@, created_norm@, opt_view(updated_norm))
                == Ok::<(Seq<u8>, bool, Option<PathPartsV>), PipelineErrorV>(
                (o.rendered@, o.date_mismatch, parts_view(o.path_parts)),
            ),
            Err(e) => process_spec(
                input@,
                mode,
                created_raw@,
                created_norm@,
                opt_view(updated_norm),
            ) == Err::<(Seq<u8>, bool, Option<PathPartsV>), PipelineErrorV>(e@),
        },
{
    let raw = match split_document(input) {
        Ok(rd) => rd,
        Err(e) => {
            return Err(PipelineError::Split(e));
        },
    };
    let doc = match parse_document(raw.header.as_slice()) {
        Ok(d) => d,
        Err(e) => {
            return Err(PipelineError::Parse(e));
        },
    };
    let outcome = match transform(doc, mode, created_raw, created_norm, updated_norm) {
        Ok(o) => o,
        Err(e) => {
            return Err(PipelineError::Transform(e));
        },
    };
    let rendered = render_document(&outcome.doc, raw.body.as_slice());
    let out = ProcessOutput {
        rendered,
        date_mismatch: outcome.date_mismatch,
        path_parts: outcome.path_parts,
    };
    proof {
        assert(parts_view(out.path_parts) =~~= outcome@.path_parts);
    }
    Ok(out)
}

} // verus!
