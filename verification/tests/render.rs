use eddy::render::{
    choose_swap_extent, choose_swap_present_mode, primitive_indices, quad_indices, update_texture, PresentMode,
    TextureRect,
};

#[test]
fn glyph_bitmap_fills_rectangle() {
    let mut buf = vec![0u8; 12];
    update_texture((4, 3), &mut buf, TextureRect { min: [1, 1], max: [3, 3] }, &[1, 2, 3, 4]);
    assert_eq!(buf, vec![0, 0, 0, 0, 0, 1, 2, 0, 0, 3, 4, 0]);
}

#[test]
fn empty_rectangle_changes_nothing() {
    let mut buf = vec![9u8; 6];
    update_texture((3, 2), &mut buf, TextureRect { min: [2, 1], max: [2, 2] }, &[]);
    assert_eq!(buf, vec![9; 6]);
}

#[test]
fn full_row_copy() {
    let mut buf = vec![0u8; 6];
    update_texture((3, 2), &mut buf, TextureRect { min: [0, 0], max: [3, 1] }, &[7, 8, 9, 10]);
    assert_eq!(buf, vec![7, 8, 9, 0, 0, 0]);
}

#[test]
fn quads_become_two_triangles() {
    assert_eq!(quad_indices(0), [0, 1, 2, 2, 3, 0]);
    assert_eq!(quad_indices(2), [8, 9, 10, 10, 11, 8]);
    assert_eq!(primitive_indices(2), vec![0, 1, 2, 2, 3, 0, 4, 5, 6, 6, 7, 4]);
    assert_eq!(primitive_indices(0), Vec::<u16>::new());
    assert_eq!(primitive_indices(16384).len(), 6 * 16384);
}

#[test]
fn swap_chain_choices() {
    assert_eq!(choose_swap_present_mode(true, true), PresentMode::Mailbox);
    assert_eq!(choose_swap_present_mode(false, true), PresentMode::Immediate);
    assert_eq!(choose_swap_present_mode(false, false), PresentMode::Fifo);
    assert_eq!(choose_swap_extent(Some([1024, 768]), [1, 1], [4096, 4096]), [1024, 768]);
    assert_eq!(choose_swap_extent(None, [1, 1], [4096, 4096]), [800, 600]);
    assert_eq!(choose_swap_extent(None, [1, 1], [640, 480]), [640, 480]);
    assert_eq!(choose_swap_extent(None, [900, 700], [640, 480]), [900, 700]);
}
