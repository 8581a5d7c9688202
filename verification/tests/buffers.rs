use nvme::dma::DMABuffer;

#[test]
fn alloc_zeroed_returns_all_zero_bytes() {
    let buf = DMABuffer::allocate_zeroed(64, 8);
    assert_eq!(buf.len(), 64);
    let view = buf.as_slice();
    assert_eq!(view.len(), 64);
    assert!(view.iter().all(|&b| b == 0));
}

#[test]
fn allocate_has_requested_length() {
    let buf = DMABuffer::allocate(17, 1);
    assert_eq!(buf.len(), 17);
}

#[test]
fn write_at_replaces_only_the_window() {
    let mut buf = DMABuffer::allocate_zeroed(8, 2);
    buf.write_at(2, &[0xAA, 0xBB]);
    assert_eq!(buf.as_slice(), &[0, 0, 0xAA, 0xBB, 0, 0, 0, 0]);
}
