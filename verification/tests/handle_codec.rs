use haste_introspect::handle::{
    ehandle_to_index, handle_to_index, is_ehandle_valid, is_handle_valid, EHANDLE_INDEX_MASK,
};

fn pack(index: u32, generation: u32) -> u32 {
    (generation << 14) | index
}

#[test]
fn sentinel_index_is_invalid_for_every_generation() {
    for generation in [0u32, 1, 2, 7, 255, 0x3ffff] {
        let handle = pack(EHANDLE_INDEX_MASK, generation);
        assert!(!is_ehandle_valid(handle));
        assert!(!is_handle_valid(handle));
    }
    assert!(!is_ehandle_valid(u32::MAX));
}

#[test]
fn non_sentinel_index_is_valid_and_recovered() {
    for index in [0u32, 1, 5, 100, EHANDLE_INDEX_MASK - 1] {
        for generation in [0u32, 1, 7, 0x3ffff] {
            let handle = pack(index, generation);
            assert!(is_ehandle_valid(handle));
            assert_eq!(ehandle_to_index(handle), index as i32);
            assert_eq!(handle_to_index(handle), index as usize);
        }
    }
}

#[test]
fn to_index_masks_generation_even_when_invalid() {
    assert_eq!(ehandle_to_index(u32::MAX), EHANDLE_INDEX_MASK as i32);
    assert_eq!(handle_to_index(u32::MAX), EHANDLE_INDEX_MASK as usize);
    assert_eq!(ehandle_to_index(pack(42, 9)), 42);
}
