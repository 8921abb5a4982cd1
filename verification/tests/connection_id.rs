use blightmud::net::connection_id::{connection_id, ConnectionIds};

#[test]
fn test_connection_id_increments() {
    let mut ids = ConnectionIds::new();
    let id1 = connection_id(&mut ids);
    let id2 = connection_id(&mut ids);
    assert!(id2 > id1);
}

#[test]
fn connection_ids_start_at_zero_and_count_up() {
    let mut ids = ConnectionIds::new();
    assert_eq!(connection_id(&mut ids), 0);
    assert_eq!(connection_id(&mut ids), 1);
    assert_eq!(connection_id(&mut ids), 2);
}

#[test]
fn connection_ids_wrap_after_the_largest() {
    let mut ids = ConnectionIds::new();
    let mut last = 0;
    for _ in 0..=u16::MAX {
        last = connection_id(&mut ids);
    }
    assert_eq!(last, u16::MAX);
    assert_eq!(connection_id(&mut ids), 0);
}
