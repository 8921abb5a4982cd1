use blightmud::net::addresses::interleave_addresses;

#[test]
fn addresses_alternate_from_preferred() {
    let r = interleave_addresses(&vec![1, 2, 3], &vec![10, 20]);
    assert_eq!(r, vec![1, 10, 2, 20, 3]);
}

#[test]
fn addresses_rest_of_longer_list_follows() {
    assert_eq!(interleave_addresses(&vec![1], &vec![10, 20, 30]), vec![1, 10, 20, 30]);
    assert_eq!(interleave_addresses(&Vec::<i32>::new(), &vec![10, 20]), vec![10, 20]);
    assert_eq!(interleave_addresses(&vec![1, 2], &Vec::<i32>::new()), vec![1, 2]);
}

#[test]
fn addresses_of_both_families() {
    let v6 = ([0u16, 0, 0, 0, 0, 0, 0, 1], 4000u16);
    let v4 = ([127u16, 0, 0, 1, 0, 0, 0, 0], 4000u16);
    let v4b = ([10u16, 0, 0, 1, 0, 0, 0, 0], 4000u16);
    assert_eq!(interleave_addresses(&vec![v6], &vec![v4, v4b]), vec![v6, v4, v4b]);
}
