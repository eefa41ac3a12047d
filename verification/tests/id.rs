use funnel_web::id::{Index, ScriptNodeID, TagID, ID};

#[test]
fn expected_tag_id_matches() {
    assert_eq!(TagID::from_usize(0).unwrap().as_u32(), 0xE1740000);
    assert_eq!(TagID::from_usize(1).unwrap().as_u32(), 0xE1750001);
    assert_eq!(TagID::from_usize(0x8000).unwrap().as_u32(), 0xE1748000);
    assert_eq!(TagID::from_usize(0x8001).unwrap().as_u32(), 0xE1758001);
    assert_eq!(TagID::from_u32(0xE1750001).unwrap().as_u32(), 0xE1750001);
    assert_eq!(TagID::new().as_u32(), 0xFFFFFFFF);
    assert_eq!(TagID::from_index(Index::from_usize(1).unwrap()).as_u32(), 0xE1750001);

    assert!(TagID::from_u32(0xFFFFFFFF).unwrap().is_null());
    assert!(TagID::from_index(Index::new()).is_null());
}

#[test]
fn index_round_trip() {
    assert_eq!(Index::new(), Index(0xFFFF));
    assert!(Index::new().is_null());
    assert_eq!(Index::new().index(), None);
    assert_eq!(Index::default(), Index::new());
    assert_eq!(Index::from_usize(0), Some(Index(0)));
    assert_eq!(Index::from_usize(65534), Some(Index(65534)));
    assert_eq!(Index::from_usize(65535), None);
    assert_eq!(Index::from_usize(65536), None);
    assert_eq!(Index(12).index(), Some(12));
    assert!(!Index(12).is_null());
}

#[test]
fn id_from_usize_bounds() {
    assert!(TagID::from_usize(0xFFFF).is_some());
    assert!(TagID::from_usize(0x10000).is_none());
    assert_eq!(TagID::from_usize(0xFFFF).unwrap().as_u32(), 0x9E8B_FFFF);
    assert_eq!(TagID::from_usize(0xFFFF).unwrap().index(), Some(0xFFFF));
    assert_eq!(TagID::from_usize(0x1234).unwrap().index(), Some(0x1234));
    assert_eq!(ScriptNodeID::from_usize(2).unwrap().as_u32(), 0xE371_0002);
}

#[test]
fn id_of_the_last_position_under_a_zero_salt_is_null() {
    let id = ID::<0>::from_usize(0xFFFF).unwrap();
    assert_eq!(id.as_u32(), 0xFFFF_FFFF);
    assert!(id.is_null());
    assert_eq!(id.index(), None);
    let id = ID::<0x8000>::from_usize(0xFFFF).unwrap();
    assert!(id.is_null());
    let id = ID::<0>::from_usize(0xFFFE).unwrap();
    assert_eq!(id.as_u32(), 0xFFFE_FFFE);
    assert_eq!(id.index(), Some(0xFFFE));
}

#[test]
fn id_from_u32_checks_the_salt() {
    assert!(TagID::from_u32(0).unwrap().is_null());
    assert!(TagID::from_u32(0xFFFF_FFFF).unwrap().is_null());
    assert_eq!(TagID::from_u32(0xE174_0000).unwrap().index(), Some(0));
    assert!(TagID::from_u32(0xE174_0001).is_none());
    assert!(TagID::from_u32(0x6175_0001).is_none());
    assert!(TagID::from_u32(1).is_none());
    assert!(ScriptNodeID::from_u32(0xE175_0001).is_none());
    assert_eq!(ScriptNodeID::from_u32(0xE371_0002).unwrap().as_u32(), 0xE371_0002);
}

#[test]
fn id_taken_back_from_its_raw_value() {
    for position in [0usize, 1, 2, 0x7FFF, 0x8000, 0xFFFE, 0xFFFF] {
        let id = TagID::from_usize(position).unwrap();
        let back = TagID::from_u32(id.as_u32()).unwrap();
        assert_eq!(back, id);
        assert_eq!(back.index(), Some(position));
    }
    assert_eq!(TagID::default().as_u32(), 0xFFFF_FFFF);
    assert_eq!(TagID::new().index(), None);
}
