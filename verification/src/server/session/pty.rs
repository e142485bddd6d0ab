//! The size of a terminal.

use crate::proto::wire::{PtyRequest, WindowChangeRequest};
use crate::text;
use crate::text::{decimal_string, join3};
use vstd::prelude::*;
use vstd::string::*;

verus! {

/// A size that a terminal cannot have.
#[derive(Debug, Clone, PartialEq, Eq)]
pub struct DimensionOverflow {
    /// Which size it is.
    pub field: &'static str,
    /// The size.
    pub value: u32,
}

impl DimensionOverflow {
    /// The text of the error.
    pub open spec fn message(self) -> Seq<char> {
        "PTY dimension overflow: "@ + self.field@ + " = "@ + text::decimal(self.value as nat)
            + " exceeds u16::MAX (65535)"@
    }

    /// The error as text.
    pub fn to_string(&self) -> (r: String)
        ensures
            r@ == self.message(),
    {
        let head = join3("PTY dimension overflow: ", self.field, " = ");
        join3(
            head.as_str(),
            decimal_string(self.value as u64).as_str(),
            " exceeds u16::MAX (65535)",
        )
    }
}

/// The outcome for four sizes: the first that is too large is refused, and nothing is
/// ever cut down to fit.
pub open spec fn sizes(
    width_cols: u32,
    height_rows: u32,
    width_px: u32,
    height_px: u32,
    r: Result<libc::winsize, DimensionOverflow>,
) -> bool {
    if width_cols > 65535 {
        r matches Err(e) && e.field@ == "width_cols"@ && e.value == width_cols
    } else if height_rows > 65535 {
        r matches Err(e) && e.field@ == "height_rows"@ && e.value == height_rows
    } else if width_px > 65535 {
        r matches Err(e) && e.field@ == "width_px"@ && e.value == width_px
    } else if height_px > 65535 {
        r matches Err(e) && e.field@ == "height_px"@ && e.value == height_px
    } else {
        r matches Ok(ws) && ws.ws_col == width_cols && ws.ws_row == height_rows && ws.ws_xpixel
            == width_px && ws.ws_ypixel == height_px
    }
}

/// The size of a terminal, where all four numbers fit.
pub fn checked_winsize(width_cols: u32, height_rows: u32, width_px: u32, height_px: u32) -> (r: Result<
    libc::winsize,
    DimensionOverflow,
>)
    ensures
        sizes(width_cols, height_rows, width_px, height_px, r),
{
    if width_cols > 65535 {
        return Err(DimensionOverflow { field: "width_cols", value: width_cols });
    }
    if height_rows > 65535 {
        return Err(DimensionOverflow { field: "height_rows", value: height_rows });
    }
    if width_px > 65535 {
        return Err(DimensionOverflow { field: "width_px", value: width_px });
    }
    if height_px > 65535 {
        return Err(DimensionOverflow { field: "height_px", value: height_px });
    }
    Ok(
        libc::winsize {
            ws_row: height_rows as u16,
            ws_col: width_cols as u16,
            ws_xpixel: width_px as u16,
            ws_ypixel: height_px as u16,
        },
    )
}

/// The size of the terminal that is asked for.
pub fn validate_pty_dimensions(request: &PtyRequest) -> (r: Result<
    libc::winsize,
    DimensionOverflow,
>)
    ensures
        sizes(request.width_cols, request.height_rows, request.width_px, request.height_px, r),
{
    checked_winsize(request.width_cols, request.height_rows, request.width_px, request.height_px)
}

/// The size that a terminal is to have from now on.
pub fn validate_window_change_dimensions(request: &WindowChangeRequest) -> (r: Result<
    libc::winsize,
    DimensionOverflow,
>)
    ensures
        sizes(request.width_cols, request.height_rows, request.width_px, request.height_px, r),
{
    checked_winsize(request.width_cols, request.height_rows, request.width_px, request.height_px)
}

/// Why there is no terminal, or not of that size.
#[derive(Debug, Clone, PartialEq, Eq)]
pub enum PtyError {
    /// A size is too large.
    Dimension { source: DimensionOverflow },
    /// The system refused, with this number.
    Os { errno: i32 },
}

impl PtyError {
    /// The text of the error.
    pub open spec fn message(self) -> Seq<char> {
        match self {
            PtyError::Dimension { source } => source.message(),
            PtyError::Os { errno } => "PTY OS error"@,
        }
    }

    /// The error as text.
    pub fn to_string(&self) -> (r: String)
        ensures
            r@ == self.message(),
    {
        match self {
            PtyError::Dimension { source } => source.to_string(),
            PtyError::Os { errno: _ } => "PTY OS error".to_owned(),
        }
    }
}

/// The size of the terminal to make.
pub fn pty_size(request: &PtyRequest) -> (r: Result<libc::winsize, PtyError>)
    ensures
        match r {
            Ok(ws) => sizes(
                request.width_cols,
                request.height_rows,
                request.width_px,
                request.height_px,
                Ok(ws),
            ),
            Err(e) => e matches PtyError::Dimension { source } && sizes(
                request.width_cols,
                request.height_rows,
                request.width_px,
                request.height_px,
                Err(source),
            ),
        },
{
    match validate_pty_dimensions(request) {
        Ok(ws) => Ok(ws),
        Err(source) => Err(PtyError::Dimension { source }),
    }
}

/// The size to give a terminal.
pub fn window_size(request: &WindowChangeRequest) -> (r: Result<libc::winsize, PtyError>)
    ensures
        match r {
            Ok(ws) => sizes(
                request.width_cols,
                request.height_rows,
                request.width_px,
                request.height_px,
                Ok(ws),
            ),
            Err(e) => e matches PtyError::Dimension { source } && sizes(
                request.width_cols,
                request.height_rows,
                request.width_px,
                request.height_px,
                Err(source),
            ),
        },
{
    match validate_window_change_dimensions(request) {
        Ok(ws) => Ok(ws),
        Err(source) => Err(PtyError::Dimension { source }),
    }
}

} // verus!
