//! Reading what the search-path lookup command answered.

use crate::error::{Error, ErrorView};
use crate::path::copied;
use vstd::prelude::*;
use vstd::utf8::valid_utf8;

verus! {

/// The exit code by which the lookup command says that it found the name.
pub const FOUND: i32 = 0;

/// The exit code by which the lookup command says that the search path
/// holds no such name.
pub const NOT_FOUND: i32 = 1;

/// How a run of the lookup command ended.
#[derive(Debug, PartialEq, Eq)]
pub enum Lookup {
    /// The command could not be run at all.
    Unavailable,
    /// The command ran and ended: its exit code, which is `None` where it
    /// ended without one (a signal killed it), and what it wrote to its
    /// standard output.
    Exited { code: Option<i32>, output: Vec<u8> },
}

/// A `Lookup` with its output as a sequence of bytes.
pub enum LookupView {
    Unavailable,
    Exited { code: Option<i32>, output: Seq<u8> },
}

impl View for Lookup {
    type V = LookupView;

    open spec fn view(&self) -> LookupView {
        match *self {
            Lookup::Unavailable => LookupView::Unavailable,
            Lookup::Exited { code, output } => LookupView::Exited { code, output: output@ },
        }
    }
}

/// What a lookup of `name` that ended as `outcome` says about the search path.
///
/// A command that ended with `NOT_FOUND` found nothing, which is no error.
/// One that ended with `FOUND` wrote the path it found as a line of text: the
/// path is the output without its last byte, the line feed. Everything else
/// is a failure of the lookup itself, and never read as "not found": the
/// command could not be run, it ended with another code or with none, or it
/// ended with `FOUND` and wrote nothing, or what is no UTF-8 text.
pub open spec fn resolution(name: Seq<u8>, outcome: LookupView) -> Result<
    Option<Seq<u8>>,
    ErrorView,
> {
    match outcome {
        LookupView::Unavailable => Err(ErrorView::PathResolutionFailed(name)),
        LookupView::Exited { code, output } => if code == Some(NOT_FOUND) {
            Ok(None)
        } else if code == Some(FOUND) && output.len() > 0 && valid_utf8(output.drop_last()) {
            Ok(Some(output.drop_last()))
        } else {
            Err(ErrorView::PathResolutionFailed(name))
        },
    }
}

/// The view of what `bin_path` returns.
pub open spec fn resolved_view(result: Result<Option<Vec<u8>>, Error>) -> Result<
    Option<Seq<u8>>,
    ErrorView,
> {
    match result {
        Ok(Some(path)) => Ok(Some(path@)),
        Ok(None) => Ok(None),
        Err(error) => Err(error@),
    }
}

/// Whether `bytes` are text. This calls `std::str::from_utf8`, which accepts
/// a slice of bytes exactly where it is well-formed UTF-8; the contract says
/// so over vstd's definition of well-formed UTF-8, and is not proved.
#[verifier::external_body]
fn is_text(bytes: &Vec<u8>) -> (ok: bool)
    ensures
        ok == valid_utf8(bytes@),
{
    std::str::from_utf8(bytes.as_slice()).is_ok()
}

/// Reads the outcome of a lookup of `bin` on the search path: the path found,
/// `None` where the command answered that the search path holds no such
/// name, or the failure of the lookup itself.
pub fn bin_path(bin: &Vec<u8>, outcome: &Lookup) -> (result: Result<Option<Vec<u8>>, Error>)
    ensures
        resolved_view(result) == resolution(bin@, outcome@),
{
    match outcome {
        Lookup::Unavailable => Err(Error::PathResolutionFailed(copied(bin))),
        Lookup::Exited { code, output } => {
            let ended: i32 = match code {
                Some(ended) => *ended,
                None => {
                    return Err(Error::PathResolutionFailed(copied(bin)));
                },
            };
            if ended == NOT_FOUND {
                return Ok(None);
            }
            if ended != FOUND || output.len() == 0 {
                return Err(Error::PathResolutionFailed(copied(bin)));
            }
            let mut line = copied(output);
            line.pop();
            if is_text(&line) {
                Ok(Some(line))
            } else {
                Err(Error::PathResolutionFailed(copied(bin)))
            }
        },
    }
}

} // verus!
