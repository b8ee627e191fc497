//! The geometry of the host window: where it is centred, how high it is for
//! the game's aspect ratio of 12 to 7, and the size it had last.

use vstd::prelude::*;

verus! {

/// The lowest height that the host window is given, in physical pixels.
pub const MIN_OUTER_HEIGHT: i32 = 240;

/// The size that the host window had last, once it has had one.
#[derive(Debug)]
pub struct LastWindowSize {
    pub size: Option<(u32, u32)>,
}

impl LastWindowSize {
    pub fn new() -> (r: Self)
        ensures
            r.size is None,
    {
        LastWindowSize { size: None }
    }
}

/// Remembers a size of the host window. A size without width or height is
/// that of a minimised window and is not remembered.
pub fn track_last_size(last: &mut LastWindowSize, width: u32, height: u32)
    ensures
        final(last).size == if width == 0 || height == 0 {
            old(last).size
        } else {
            Some((width, height))
        },
{
    if width == 0 || height == 0 {
        return ;
    }
    last.size = Some((width, height));
}

/// Half of `d`, rounded toward zero.
pub open spec fn half_toward_zero(d: int) -> int {
    if d >= 0 {
        d / 2
    } else {
        -((-d) / 2)
    }
}

/// The coordinate at which a window of extent `size` is centred on a screen
/// that begins at `origin` and has extent `screen`.
pub open spec fn centred(origin: i32, screen: i32, size: i32) -> int {
    origin + half_toward_zero(screen - size)
}

fn centre(origin: i32, screen: i32, size: i32) -> (r: i32)
    requires
        i32::MIN <= screen - size <= i32::MAX,
        i32::MIN <= centred(origin, screen, size) <= i32::MAX,
    ensures
        r == centred(origin, screen, size),
{
    let d = screen - size;
    let half = if d >= 0 {
        d / 2
    } else if d == i32::MIN {
        -0x4000_0000
    } else {
        -((-d) / 2)
    };
    origin + half
}

/// Where the host window is put so that it is centred on its screen. The
/// screen begins at `screen_pos` and has `screen_size`; `size` is the
/// window's own. The extents are read as signed numbers.
pub fn center_position(screen_pos: (i32, i32), screen_size: (u32, u32), size: (u32, u32)) -> (r: (
    i32,
    i32,
))
    requires
        i32::MIN <= (screen_size.0 as i32) - (size.0 as i32) <= i32::MAX,
        i32::MIN <= (screen_size.1 as i32) - (size.1 as i32) <= i32::MAX,
        i32::MIN <= centred(screen_pos.0, screen_size.0 as i32, size.0 as i32) <= i32::MAX,
        i32::MIN <= centred(screen_pos.1, screen_size.1 as i32, size.1 as i32) <= i32::MAX,
    ensures
        r.0 == centred(screen_pos.0, screen_size.0 as i32, size.0 as i32),
        r.1 == centred(screen_pos.1, screen_size.1 as i32, size.1 as i32),
{
    (
        centre(screen_pos.0, screen_size.0 as i32, size.0 as i32),
        centre(screen_pos.1, screen_size.1 as i32, size.1 as i32),
    )
}

/// The height of the game at a width of `client_w`: seven twelfths of it,
/// rounded to the nearest pixel, a half upward.
pub open spec fn game_height(client_w: int) -> int {
    (14 * client_w + 12) / 24
}

/// The height that the client area is to have: that of the game and of the
/// toolbar, at least one pixel.
pub open spec fn desired_client_height(client_w: int, bar_height: int) -> int {
    if game_height(client_w) + bar_height > 1 {
        game_height(client_w) + bar_height
    } else {
        1
    }
}

/// The outer height that gives the client area its desired height, never
/// below `MIN_OUTER_HEIGHT`.
pub open spec fn aligned_height(client_w: int, client_h: int, outer_h: int, bar_height: int) -> int {
    let grown = outer_h + (desired_client_height(client_w, bar_height) - client_h);
    if grown > MIN_OUTER_HEIGHT {
        grown
    } else {
        MIN_OUTER_HEIGHT as int
    }
}

/// The outer height to give the host window so that the game below the
/// toolbar has its aspect ratio; nothing where the client area has its
/// desired height already.
pub fn aligned_outer_height(client_w: i32, client_h: i32, outer_h: u32, bar_height: i32) -> (r:
    Option<u32>)
    requires
        client_w >= 0,
        client_h >= 0,
        bar_height >= 0,
        outer_h <= i32::MAX,
    ensures
        r == if desired_client_height(client_w as int, bar_height as int) == client_h {
            None
        } else {
            Some(
                aligned_height(
                    client_w as int,
                    client_h as int,
                    outer_h as int,
                    bar_height as int,
                ) as u32,
            )
        },
{
    let game_h: i64 = (14 * (client_w as i64) + 12) / 24;
    let wanted: i64 = if game_h + bar_height as i64 > 1 {
        game_h + bar_height as i64
    } else {
        1
    };
    let delta: i64 = wanted - client_h as i64;
    if delta == 0 {
        return None;
    }
    let grown: i64 = outer_h as i64 + delta;
    let height: i64 = if grown > MIN_OUTER_HEIGHT as i64 {
        grown
    } else {
        MIN_OUTER_HEIGHT as i64
    };
    Some(height as u32)
}

} // verus!
