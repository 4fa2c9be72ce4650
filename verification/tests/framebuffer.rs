use framecore::CoreError;
use framecore::Framebuffer;

#[test]
fn buffers_start_zeroed() {
    let fb = Framebuffer::new(3, 2);
    assert_eq!(fb.width(), 3);
    assert_eq!(fb.height(), 2);
    assert_eq!(fb.front().len(), 6);
    for i in 0..6 {
        assert_eq!(fb.front()[i], 0);
    }
}

#[test]
fn write_pixel_rejects_out_of_range() {
    let mut fb = Framebuffer::new(4, 4);
    assert_eq!(fb.write_pixel(4, 0, 0x55), Err(CoreError::OutOfBounds));
    assert_eq!(fb.write_pixel(0, 4, 0x55), Err(CoreError::OutOfBounds));
    assert_eq!(fb.write_pixel(3, 3, 0x55), Ok(()));
    // the rejected writes changed nothing, not even after a swap
    fb.swap();
    for i in 0..16 {
        let expected = if i == 3 * 4 + 3 { 0x55 } else { 0 };
        assert_eq!(fb.front()[i], expected);
    }
}

#[test]
fn swap_exchanges_roles_without_copy() {
    let mut fb = Framebuffer::new(4, 4);
    fb.write_pixel(1, 2, 7).unwrap();
    // the store went to the back buffer: the front is still the power-on image
    assert_eq!(fb.front()[2 * 4 + 1], 0);
    fb.swap();
    assert_eq!(fb.front()[2 * 4 + 1], 7);
    fb.swap();
    // swapping back re-exposes the untouched first buffer
    assert_eq!(fb.front()[2 * 4 + 1], 0);
}
