use zombie_survival::render::{
    draw_blue_zombie, draw_player, draw_rectangle, draw_zombie, to_pixel, FRAME_LEN,
};
use zombie_survival::{BlueZombie, Player, Zombie};

fn pixel(frame: &[u8], x: usize, y: usize) -> [u8; 4] {
    let i = (y * 800 + x) * 4;
    [frame[i], frame[i + 1], frame[i + 2], frame[i + 3]]
}

#[test]
fn rectangle_paints_its_pixels_only() {
    let mut frame = vec![0u8; FRAME_LEN];
    draw_rectangle(&mut frame, 10, 20, 3, 2, [1, 2, 3, 4]);
    assert_eq!(pixel(&frame, 10, 20), [1, 2, 3, 4]);
    assert_eq!(pixel(&frame, 12, 21), [1, 2, 3, 4]);
    assert_eq!(pixel(&frame, 13, 20), [0, 0, 0, 0]);
    assert_eq!(pixel(&frame, 10, 22), [0, 0, 0, 0]);
    assert_eq!(pixel(&frame, 9, 20), [0, 0, 0, 0]);
    assert_eq!(frame.iter().filter(|&&b| b != 0).count(), 6 * 4);
}

#[test]
fn rectangle_is_clipped_at_the_frame_edge() {
    let mut frame = vec![0u8; FRAME_LEN];
    draw_rectangle(&mut frame, 798, 598, 5, 5, [9, 9, 9, 9]);
    assert_eq!(pixel(&frame, 799, 599), [9, 9, 9, 9]);
    assert_eq!(frame.iter().filter(|&&b| b != 0).count(), 4 * 4);
    let mut frame = vec![0u8; FRAME_LEN];
    draw_rectangle(&mut frame, u32::MAX, 5, 5, 5, [9, 9, 9, 9]);
    draw_rectangle(&mut frame, 900, 5, 5, 5, [9, 9, 9, 9]);
    assert!(frame.iter().all(|&b| b == 0));
}

#[test]
fn entities_are_drawn_in_their_colors() {
    let mut frame = vec![0u8; FRAME_LEN];
    draw_player(&mut frame, &Player::new(400_500, 300_999));
    draw_zombie(&mut frame, &Zombie::new(100_000, 100_000));
    draw_blue_zombie(&mut frame, &BlueZombie::new(-3_000, 200_000));
    assert_eq!(pixel(&frame, 400, 300), [0x00, 0xFF, 0x00, 0xFF]);
    assert_eq!(pixel(&frame, 404, 304), [0x00, 0xFF, 0x00, 0xFF]);
    assert_eq!(pixel(&frame, 104, 104), [0xFF, 0x00, 0x00, 0xFF]);
    assert_eq!(pixel(&frame, 0, 200), [0x00, 0x00, 0xFF, 0xFF]);
    // three 5 by 5 squares, two non-zero bytes per pixel
    assert_eq!(frame.iter().filter(|&&b| b != 0).count(), 150);
}

#[test]
fn coordinates_map_to_whole_pixels() {
    assert_eq!(to_pixel(0), 0);
    assert_eq!(to_pixel(999), 0);
    assert_eq!(to_pixel(1_000), 1);
    assert_eq!(to_pixel(799_999), 799);
    assert_eq!(to_pixel(-5), 0);
}
