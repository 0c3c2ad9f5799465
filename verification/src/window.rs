//! The size a window's surface is configured with, from the size its
//! backend reports.
use vstd::prelude::*;

verus! {

/// Why a reported window size cannot configure a surface.
#[derive(Debug, Clone, Copy, PartialEq, Eq, Structural)]
pub enum SizeError {
    /// The width was negative; it is given.
    NegativeWidth(i32),
    /// The height was negative; it is given.
    NegativeHeight(i32),
}

/// The surface width and height for a backend size: both as unsigned
/// numbers when neither is negative; otherwise the error for the width if it
/// is negative, else the one for the height.
pub fn surface_size(width: i32, height: i32) -> (r: Result<(u32, u32), SizeError>)
    ensures
        width < 0 ==> r == Err::<(u32, u32), SizeError>(SizeError::NegativeWidth(width)),
        width >= 0 && height < 0 ==> r == Err::<(u32, u32), SizeError>(
            SizeError::NegativeHeight(height),
        ),
        width >= 0 && height >= 0 ==> r == Ok::<(u32, u32), SizeError>(
            (width as u32, height as u32),
        ),
{
    if width < 0 {
        Err(SizeError::NegativeWidth(width))
    } else if height < 0 {
        Err(SizeError::NegativeHeight(height))
    } else {
        Ok((width as u32, height as u32))
    }
}

} // verus!
