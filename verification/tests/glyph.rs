use braille_life::game::GameOfLife;
use braille_life::glyph::{pack_block, render_frame};

#[test]
fn test_pack_block_is_total() {
    // Every one of the 64 possible blocks yields a defined glyph in
    // the Braille range with dots 7 and 8 clear.
    for bits in 0..64u32 {
        let block = [
            bits & 0x01 != 0,
            bits & 0x02 != 0,
            bits & 0x04 != 0,
            bits & 0x08 != 0,
            bits & 0x10 != 0,
            bits & 0x20 != 0,
        ];
        let c = pack_block(&block);
        assert_eq!(c as u32, 0x2800 + bits);
    }
}

#[test]
fn test_pack_block_corners() {
    assert_eq!(pack_block(&[false; 6]), '\u{2800}');
    assert_eq!(pack_block(&[true; 6]), '\u{283F}');
    // One dot per slot, in column-major block order.
    assert_eq!(pack_block(&[true, false, false, false, false, false]), '\u{2801}');
    assert_eq!(pack_block(&[false, true, false, false, false, false]), '\u{2802}');
    assert_eq!(pack_block(&[false, false, true, false, false, false]), '\u{2804}');
    assert_eq!(pack_block(&[false, false, false, true, false, false]), '\u{2808}');
    assert_eq!(pack_block(&[false, false, false, false, true, false]), '\u{2810}');
    assert_eq!(pack_block(&[false, false, false, false, false, true]), '\u{2820}');
}

#[test]
fn test_render_frame_shape() {
    let game = GameOfLife::new((8, 9));
    let frame = render_frame(&game);
    assert_eq!(frame.len(), 3);
    for row in &frame {
        assert_eq!(row.len(), 4);
    }
}

#[test]
fn test_render_frame_all_dead_is_blank() {
    let game = GameOfLife::new((4, 3));
    let frame = render_frame(&game);
    assert_eq!(frame, vec![vec!['\u{2800}', '\u{2800}']]);
}

#[test]
fn test_render_frame_samples_blocks() {
    // One terminal cell; light the left column of its block.
    let mut game = GameOfLife::new((2, 3));
    game.set(0, 0, true);
    game.set(0, 1, true);
    game.set(0, 2, true);
    let frame = render_frame(&game);
    // Dots 1, 2 and 3: code 0x2800 + 0x07.
    assert_eq!(frame, vec![vec!['\u{2807}']]);

    // Light the right column instead: dots 4, 5 and 6.
    let mut game = GameOfLife::new((2, 3));
    game.set(1, 0, true);
    game.set(1, 1, true);
    game.set(1, 2, true);
    let frame = render_frame(&game);
    assert_eq!(frame, vec![vec!['\u{2838}']]);
}

#[test]
fn test_render_frame_places_blocks() {
    // A 2x2-character frame with only the bottom-right block's first
    // sub-cell alive.
    let mut game = GameOfLife::new((4, 6));
    game.set(2, 3, true);
    let frame = render_frame(&game);
    assert_eq!(frame[0], vec!['\u{2800}', '\u{2800}']);
    assert_eq!(frame[1][0], '\u{2800}');
    assert_eq!(frame[1][1], '\u{2801}');
}
