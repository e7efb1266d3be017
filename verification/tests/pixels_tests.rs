use kuma::cube::Point;
use kuma::frame::argb_u32;
use kuma::frame::rgba_as_argb_u32;
use kuma::frame::rgba_as_u32;
use kuma::frame::turn;
use kuma::frame::TRANSPARENT;
use kuma::sprite::Block;
use kuma::sprite::Buffer;
use kuma::sprite::Dire;
use kuma::sprite::Movement;
use kuma::sprite::Packet;
use kuma::sprite::Player;

#[test]
fn argb_packing_is_exact() {
    assert_eq!(rgba_as_argb_u32(&1, &2, &3, &4), 0x04010203);
    assert_eq!(rgba_as_argb_u32(&0xFF, &0, &0, &0xFF), 0xFFFF0000);
}

#[test]
fn rgba_packing_is_exact() {
    assert_eq!(rgba_as_u32(&[1, 2, 3, 4]), 0x01020304);
    assert_eq!(rgba_as_u32(&[0, 0, 0, 0xFF]), 0x000000FF);
}

#[test]
fn frame_conversion_packs_four_bytes_per_pixel() {
    let mut out: Vec<u32> = Vec::new();
    argb_u32(&mut out, &[0xFF, 0, 0, 0xFF, 0, 0xFF, 0, 0]);
    assert_eq!(out, vec![0xFFFF0000, 0x0000FF00]);
    // trailing bytes that do not fill a pixel are dropped
    argb_u32(&mut out, &[1, 2, 3, 4, 9]);
    assert_eq!(out, vec![0x04010203]);
    argb_u32(&mut out, &[]);
    assert_eq!(out, Vec::<u32>::new());
}

#[test]
fn turn_mirrors_each_row() {
    let mut img: Vec<u32> = vec![1, 2, 3, 4, 5, 6];
    turn(&mut img, 3, 2);
    assert_eq!(img, vec![3, 2, 1, 6, 5, 4]);
}

#[test]
fn turn_leaves_rows_beyond_ih_alone() {
    let mut img: Vec<u32> = vec![1, 2, 3, 4, 5, 6];
    turn(&mut img, 3, 1);
    assert_eq!(img, vec![3, 2, 1, 4, 5, 6]);
}

#[test]
fn turn_even_width() {
    let mut img: Vec<u32> = vec![1, 2, 3, 4];
    turn(&mut img, 4, 1);
    assert_eq!(img, vec![4, 3, 2, 1]);
}

#[test]
fn load_stream_packs_and_mirrors() {
    let mut p = Player::new(Dire::Right, true);
    // one 2x1 frame: the loader clears the frame's closing byte before
    // packing, so the second pixel loses its alpha
    let frames: Vec<Vec<u8>> = vec![vec![1, 2, 3, 4, 5, 6, 7, 8]];
    p.load_stream(Movement::Stop, &frames, 2, 1);
    assert_eq!(p.stream.len(), 1);
    assert_eq!(p.stream[0].width, 2);
    assert_eq!(p.stream[0].tag, Movement::Stop);
    assert_eq!(p.stream[0].right, vec![vec![0x04010203, 0x00050607]]);
    assert_eq!(p.stream[0].left, vec![vec![0x00050607, 0x04010203]]);
}

#[test]
fn get_frame_follows_facing_and_cursor() {
    let mut p = Player::new(Dire::Right, true);
    let frames: Vec<Vec<u8>> = vec![vec![1, 2, 3, 4, 5, 6, 7, 8]];
    p.load_stream(Movement::Stop, &frames, 2, 1);
    assert_eq!(p.get_frame(), &vec![0x04010203, 0x00050607]);
    p.dire = Dire::Left;
    assert_eq!(p.get_frame(), &vec![0x00050607, 0x04010203]);
}

#[test]
fn next_frame_counts_down_then_cycles() {
    let mut p = Player::new(Dire::Right, true);
    let frames: Vec<Vec<u8>> = vec![vec![1, 2, 3, 4], vec![5, 6, 7, 8]];
    p.load_stream(Movement::Stop, &frames, 1, 1);
    assert_eq!(p.frame_timer, 6);
    p.next_frame();
    assert_eq!(p.frame_timer, 5);
    assert_eq!(p.ptr_frame, 0);
    p.frame_timer = 0;
    p.next_frame();
    assert_eq!(p.ptr_frame, 1);
    assert_eq!(p.frame_timer, 6);
    p.frame_timer = 0;
    p.next_frame();
    // past the last frame the cursor wraps to the front
    assert_eq!(p.ptr_frame, 0);
}

#[test]
fn flush_buffer_blits_and_skips_transparent() {
    let mut p = Player::new(Dire::Right, true);
    p.stream.push(Packet {
        tag: Movement::Stop,
        right: vec![vec![7, TRANSPARENT, 8, 9]],
        left: vec![vec![TRANSPARENT, 7, 9, 8]],
        width: 2,
    });
    p.x_offset = 1;
    let mut buffer: Vec<u32> = vec![0; 16];
    p.flush_buffer(&mut buffer, 1, 4);
    let expected: Vec<u32> = vec![
        0, 0, 0, 0,
        0, 7, 0, 0,
        0, 8, 9, 0,
        0, 0, 0, 0,
    ];
    assert_eq!(buffer, expected);
}

#[test]
fn buffer_height_comes_from_width() {
    let b = Buffer::new(vec![0; 8], 2);
    assert_eq!(b.height, 4);
    assert_eq!(b.width, 2);
    assert_eq!(b.data.len(), 8);
    let c = Buffer::new(vec![0; 7], 2);
    assert_eq!(c.height, 3);
}

#[test]
fn block_corners_and_body() {
    let b = Block::new(5, 6, 10, 20);
    assert_eq!((b.x1, b.x2, b.y1, b.y2), (5, 15, 6, 26));
    let g = b.gen_body(1, 2, 3, 4);
    assert_eq!((g.x1, g.x2, g.y1, g.y2), (6, 19, 8, 32));
}

#[test]
fn block_check_reports_first_matching_side() {
    let a = Block::new(0, 0, 10, 10);
    let right = Block::new(20, 0, 5, 5);
    assert_eq!(a.check(&right), Dire::Right);
    let overlapping = Block::new(5, 5, 10, 10);
    assert_eq!(a.check(&overlapping), Dire::Left);
}

#[test]
fn defaults_and_fps() {
    assert_eq!(Point::default(), Point::new(0, 0));
    assert_eq!(kuma::FPS, 16);
}
