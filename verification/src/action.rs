//! Converting design coordinates — authored against the canonical
//! 1920x1080 resolution — into client-area click positions.
//!
//! The input injector that performs the click lives outside the library;
//! it asks these functions where to click.

use vstd::prelude::*;

verus! {

/// The page buttons' design column.
pub const PAGE_BUTTON_X: u32 = 1664;

/// The "previous page" button's design row.
pub const PREVIOUS_PAGE_BUTTON_Y: u32 = 435;

/// The "next page" button's design row.
pub const NEXT_PAGE_BUTTON_Y: u32 = 616;

/// A design coordinate scaled to a client extent, rounded to nearest.
pub open spec fn spec_scaled(design: int, design_extent: int, client_extent: int) -> int {
    (client_extent * design + design_extent / 2) / design_extent
}

/// Scales one design coordinate against the real client extent.
fn scale_to_client(design: u32, design_extent: u32, client_extent: u32) -> (r: u32)
    requires
        1 <= design_extent <= 1920,
        design <= design_extent,
        client_extent <= 16384,
    ensures
        r == spec_scaled(design as int, design_extent as int, client_extent as int),
        r <= client_extent + 1,
{
    proof {
        assert((client_extent as int) * (design as int) <= 16384 * 1920) by (nonlinear_arith)
            requires
                0 <= client_extent as int <= 16384,
                0 <= design as int <= 1920,
        ;
    }
    let wide: u64 = (client_extent as u64) * (design as u64) + (design_extent as u64) / 2;
    let q: u64 = wide / (design_extent as u64);
    proof {
        assert(wide == client_extent * design + design_extent / 2);
        assert(q == spec_scaled(design as int, design_extent as int, client_extent as int));
        assert(q <= client_extent + 1) by (nonlinear_arith)
            requires
                q as int == ((client_extent as int) * (design as int) + (design_extent as int)
                    / 2) / (design_extent as int),
                1 <= design_extent as int,
                design as int <= design_extent as int,
                client_extent as int >= 0,
        ;
    }
    q as u32
}

/// Where to click for "next page", in screen coordinates, given the
/// client area's origin and size.
pub fn next_page_click_pos(
    client_x: i32,
    client_y: i32,
    client_width: u32,
    client_height: u32,
) -> (p: (i32, i32))
    requires
        client_width <= 16384,
        client_height <= 16384,
        -1000000 <= client_x <= 1000000,
        -1000000 <= client_y <= 1000000,
    ensures
        p.0 == client_x + spec_scaled(PAGE_BUTTON_X as int, 1920, client_width as int),
        p.1 == client_y + spec_scaled(NEXT_PAGE_BUTTON_Y as int, 1080, client_height as int),
{
    let dx = scale_to_client(PAGE_BUTTON_X, 1920, client_width);
    let dy = scale_to_client(NEXT_PAGE_BUTTON_Y, 1080, client_height);
    (client_x + dx as i32, client_y + dy as i32)
}

/// Where to click for "previous page", in screen coordinates, given the
/// client area's origin and size.
pub fn previous_page_click_pos(
    client_x: i32,
    client_y: i32,
    client_width: u32,
    client_height: u32,
) -> (p: (i32, i32))
    requires
        client_width <= 16384,
        client_height <= 16384,
        -1000000 <= client_x <= 1000000,
        -1000000 <= client_y <= 1000000,
    ensures
        p.0 == client_x + spec_scaled(PAGE_BUTTON_X as int, 1920, client_width as int),
        p.1 == client_y + spec_scaled(PREVIOUS_PAGE_BUTTON_Y as int, 1080, client_height as int),
{
    let dx = scale_to_client(PAGE_BUTTON_X, 1920, client_width);
    let dy = scale_to_client(PREVIOUS_PAGE_BUTTON_Y, 1080, client_height);
    (client_x + dx as i32, client_y + dy as i32)
}

} // verus!
