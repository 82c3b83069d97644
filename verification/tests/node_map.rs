use ze2::node_map::NodeMap;

#[test]
fn node_ids_map_to_their_first_position() {
    let ids = [1u64, 2, 3, 0xF000_0000_0000_0000, 2, 0x8000_0000_0000_0001];
    let map = NodeMap::new(&ids);
    assert_eq!(map.get(1), Some(0));
    assert_eq!(map.get(2), Some(1));
    assert_eq!(map.get(3), Some(2));
    assert_eq!(map.get(0xF000_0000_0000_0000), Some(3));
    assert_eq!(map.get(0x8000_0000_0000_0001), Some(5));
    assert_eq!(map.get(4), None);
    assert_eq!(map.get(0xF000_0000_0000_0001), None);
}

#[test]
fn an_empty_map_finds_nothing() {
    let map = NodeMap::new(&[]);
    assert_eq!(map.get(0), None);
    assert_eq!(map.get(u64::MAX), None);
}

#[test]
fn many_colliding_ids() {
    let ids: Vec<u64> = (0..100).collect();
    let map = NodeMap::new(&ids);
    for i in 0..100u64 {
        assert_eq!(map.get(i), Some(i as usize));
    }
    assert_eq!(map.get(100), None);
}
