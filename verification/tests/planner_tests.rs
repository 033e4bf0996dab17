use stm32_an3155::pages_for_range;

#[test]
fn three_pages_for_300_bytes_at_base() {
    let pages = pages_for_range(0x0800_0000, 128, 0x0800_0000, 300);
    assert_eq!(pages, vec![0, 1, 2]);
}

#[test]
fn zero_length_touches_no_pages() {
    let pages = pages_for_range(0x0800_0000, 128, 0x0800_0000, 0);
    assert!(pages.is_empty());
}

#[test]
fn exact_page_multiples_round_down() {
    assert_eq!(pages_for_range(0x0800_0000, 128, 0x0800_0000, 128), vec![0]);
    assert_eq!(pages_for_range(0x0800_0000, 128, 0x0800_0000, 256), vec![0, 1]);
}

#[test]
fn offset_address_starts_at_its_page() {
    let pages = pages_for_range(0x0800_0000, 128, 0x0800_0080, 1);
    assert_eq!(pages, vec![1]);
    let pages = pages_for_range(0x0800_0000, 128, 0x0800_0100, 200);
    assert_eq!(pages, vec![2, 3]);
}

#[test]
fn one_byte_needs_one_page() {
    let pages = pages_for_range(0x0800_0000, 128, 0x0800_0000, 1);
    assert_eq!(pages, vec![0]);
}
