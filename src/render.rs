//! Drawing entities into an 800 by 600 RGBA frame, row-major from the top
//! left, four bytes per pixel.
use vstd::prelude::*;
use vstd::arithmetic::div_mod::lemma_fundamental_div_mod_converse;
use crate::blue_zombie::BlueZombie;
use crate::geometry::{COORD_LIMIT, UNIT};
use crate::player::Player;
use crate::zombie::Zombie;

verus! {

/// Width of the frame, in pixels.
pub const SCREEN_WIDTH: u32 = 800;

/// Height of the frame, in pixels.
pub const SCREEN_HEIGHT: u32 = 600;

/// Bytes in a frame.
pub const FRAME_LEN: usize = 1_920_000;

/// Side of the square an entity is drawn as, in pixels.
pub const ENTITY_SIZE: u32 = 5;

/// Whether pixel number `p` of the frame lies in the `w` by `h` rectangle
/// whose top left corner is `(x, y)`.
pub open spec fn in_rect(p: int, x: int, y: int, w: int, h: int) -> bool {
    let px = p % (SCREEN_WIDTH as int);
    let py = p / (SCREEN_WIDTH as int);
    x <= px < x + w && y <= py < y + h
}

proof fn lemma_pixel_index(r: int, c: int, t: int)
    requires
        0 <= r,
        0 <= c < 800,
        0 <= t < 4,
    ensures
        ((r * 800 + c) * 4 + t) / 4 == r * 800 + c,
        ((r * 800 + c) * 4 + t) % 4 == t,
        (r * 800 + c) / 800 == r,
        (r * 800 + c) % 800 == c,
{
    lemma_fundamental_div_mod_converse((r * 800 + c) * 4 + t, 4, r * 800 + c, t);
    lemma_fundamental_div_mod_converse(r * 800 + c, 800, r, c);
}

proof fn lemma_byte_of_pixel(k: int)
    requires
        0 <= k,
    ensures
        k == (k / 4) * 4 + k % 4,
        0 <= k % 4 < 4,
        k / 4 >= 0,
{
    vstd::arithmetic::div_mod::lemma_fundamental_div_mod(k, 4);
}

/// `after` is the frame `before` with the `w` by `h` rectangle at `(x, y)`
/// painted in `color`.
pub open spec fn painted(
    before: Seq<u8>,
    after: Seq<u8>,
    x: int,
    y: int,
    w: int,
    h: int,
    color: Seq<u8>,
) -> bool {
    &&& after.len() == FRAME_LEN
    &&& forall|k: int|
        0 <= k < FRAME_LEN ==> #[trigger] after[k] == if in_rect(k / 4, x, y, w, h) {
            color[k % 4]
        } else {
            before[k]
        }
}

/// The pixel column or row of a coordinate: its whole units, and zero for
/// a negative one.
pub open spec fn pixel_of(v: int) -> int {
    if v < 0 {
        0
    } else {
        v / UNIT as int
    }
}

pub fn to_pixel(v: i64) -> (r: u32)
    requires
        v <= COORD_LIMIT,
    ensures
        r == pixel_of(v as int),
{
    if v < 0 {
        0
    } else {
        (v / 1000) as u32
    }
}

/// Paints the part of the `width` by `height` rectangle at `(x, y)` that
/// lies on the frame with `color`, leaving every other byte as it was.
pub fn draw_rectangle(frame: &mut [u8], x: u32, y: u32, width: u32, height: u32, color: [u8; 4])
    requires
        old(frame)@.len() == FRAME_LEN,
    ensures
        painted(old(frame)@, final(frame)@, x as int, y as int, width as int, height as int, color@),
{
    let ghost before = frame@;
    let x_end: u64 = if x as u64 + width as u64 > 800 {
        800
    } else {
        x as u64 + width as u64
    };
    let y_end: u64 = if y as u64 + height as u64 > 600 {
        600
    } else {
        y as u64 + height as u64
    };
    let mut r: u64 = y as u64;
    while r < y_end
        invariant
            frame@.len() == FRAME_LEN,
            y <= r,
            y_end <= 600,
            x_end <= 800,
            x_end <= x + width,
            y_end <= y + height,
            y_end >= 600 || y_end == y + height,
            x_end >= 800 || x_end == x + width,
            forall|k: int|
                0 <= k < FRAME_LEN ==> #[trigger] frame@[k] == if in_rect(
                    k / 4,
                    x as int,
                    y as int,
                    width as int,
                    height as int,
                ) && (k / 4) / 800 < r {
                    color@[k % 4]
                } else {
                    before[k]
                },
        decreases y_end - r,
    {
        let mut c: u64 = x as u64;
        while c < x_end
            invariant
                frame@.len() == FRAME_LEN,
                y <= r < y_end,
                x <= c,
                y_end <= 600,
                x_end <= 800,
                x_end <= x + width,
                y_end <= y + height,
                y_end >= 600 || y_end == y + height,
                x_end >= 800 || x_end == x + width,
                forall|k: int|
                    0 <= k < FRAME_LEN ==> #[trigger] frame@[k] == if in_rect(
                        k / 4,
                        x as int,
                        y as int,
                        width as int,
                        height as int,
                    ) && ((k / 4) / 800 < r || ((k / 4) / 800 == r && (k / 4) % 800 < c)) {
                        color@[k % 4]
                    } else {
                        before[k]
                    },
            decreases x_end - c,
        {
            let base: usize = ((r * 800 + c) * 4) as usize;
            let ghost prev = frame@;
            proof {
                lemma_pixel_index(r as int, c as int, 0);
                lemma_pixel_index(r as int, c as int, 1);
                lemma_pixel_index(r as int, c as int, 2);
                lemma_pixel_index(r as int, c as int, 3);
            }
            frame[base] = color[0];
            frame[base + 1] = color[1];
            frame[base + 2] = color[2];
            frame[base + 3] = color[3];
            proof {
                assert forall|k: int| 0 <= k < FRAME_LEN implies #[trigger] frame@[k] == if in_rect(
                    k / 4,
                    x as int,
                    y as int,
                    width as int,
                    height as int,
                ) && ((k / 4) / 800 < r || ((k / 4) / 800 == r && (k / 4) % 800 < c + 1)) {
                    color@[k % 4]
                } else {
                    before[k]
                } by {
                    lemma_byte_of_pixel(k);
                    let p = k / 4;
                    lemma_fundamental_div_mod_converse(p, 800, p / 800, p % 800);
                    vstd::arithmetic::div_mod::lemma_fundamental_div_mod(p, 800);
                    vstd::arithmetic::div_mod::lemma_mod_bound(p, 800);
                    if base <= k < base + 4 {
                        assert(p == r * 800 + c);
                    } else {
                        assert(p != r * 800 + c);
                        assert(frame@[k] == prev[k]);
                    }
                }
            }
            c = c + 1;
        }
        proof {
            assert forall|k: int| 0 <= k < FRAME_LEN implies #[trigger] frame@[k] == if in_rect(
                k / 4,
                x as int,
                y as int,
                width as int,
                height as int,
            ) && (k / 4) / 800 < r + 1 {
                color@[k % 4]
            } else {
                before[k]
            } by {
                let p = k / 4;
                vstd::arithmetic::div_mod::lemma_mod_bound(p, 800);
            }
        }
        r = r + 1;
    }
    proof {
        assert forall|k: int| 0 <= k < FRAME_LEN implies #[trigger] frame@[k] == if in_rect(
            k / 4,
            x as int,
            y as int,
            width as int,
            height as int,
        ) {
            color@[k % 4]
        } else {
            before[k]
        } by {
            lemma_byte_of_pixel(k);
            let p = k / 4;
            assert(p < 480_000);
            vstd::arithmetic::div_mod::lemma_fundamental_div_mod(p, 800);
            vstd::arithmetic::div_mod::lemma_mod_bound(p, 800);
            assert(p / 800 < 600) by (nonlinear_arith)
                requires
                    p == 800 * (p / 800) + p % 800,
                    0 <= p % 800,
                    p < 480_000,
            ;
        }
    }
}

/// Draws the player as a green square.
pub fn draw_player(frame: &mut [u8], player: &Player)
    requires
        old(frame)@.len() == FRAME_LEN,
        player.wf(),
    ensures
        painted(
            old(frame)@,
            final(frame)@,
            pixel_of(player.x as int),
            pixel_of(player.y as int),
            ENTITY_SIZE as int,
            ENTITY_SIZE as int,
            seq![0x00u8, 0xFF, 0x00, 0xFF],
        ),
{
    let color: [u8; 4] = [0x00, 0xFF, 0x00, 0xFF];
    assert(color@ =~= seq![0x00u8, 0xFF, 0x00, 0xFF]);
    draw_rectangle(frame, to_pixel(player.x), to_pixel(player.y), ENTITY_SIZE, ENTITY_SIZE, color);
}

/// Draws a basic zombie as a red square.
pub fn draw_zombie(frame: &mut [u8], zombie: &Zombie)
    requires
        old(frame)@.len() == FRAME_LEN,
        zombie.wf(),
    ensures
        painted(
            old(frame)@,
            final(frame)@,
            pixel_of(zombie.x as int),
            pixel_of(zombie.y as int),
            ENTITY_SIZE as int,
            ENTITY_SIZE as int,
            seq![0xFFu8, 0x00, 0x00, 0xFF],
        ),
{
    let color: [u8; 4] = [0xFF, 0x00, 0x00, 0xFF];
    assert(color@ =~= seq![0xFFu8, 0x00, 0x00, 0xFF]);
    draw_rectangle(frame, to_pixel(zombie.x), to_pixel(zombie.y), ENTITY_SIZE, ENTITY_SIZE, color);
}

/// Draws a blue zombie as a blue square.
pub fn draw_blue_zombie(frame: &mut [u8], blue_zombie: &BlueZombie)
    requires
        old(frame)@.len() == FRAME_LEN,
        blue_zombie.wf(),
    ensures
        painted(
            old(frame)@,
            final(frame)@,
            pixel_of(blue_zombie.x as int),
            pixel_of(blue_zombie.y as int),
            ENTITY_SIZE as int,
            ENTITY_SIZE as int,
            seq![0x00u8, 0x00, 0xFF, 0xFF],
        ),
{
    let color: [u8; 4] = [0x00, 0x00, 0xFF, 0xFF];
    assert(color@ =~= seq![0x00u8, 0x00, 0xFF, 0xFF]);
    draw_rectangle(
        frame,
        to_pixel(blue_zombie.x),
        to_pixel(blue_zombie.y),
        ENTITY_SIZE,
        ENTITY_SIZE,
        color,
    );
}

} // verus!
