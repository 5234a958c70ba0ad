use romscan::igdb_map::get_igdb_platform_id;

#[test]
fn test_platform_mapping() {
    assert_eq!(get_igdb_platform_id("snes"), Some(19));
    assert_eq!(get_igdb_platform_id("ps2"), Some(8));
    assert_eq!(get_igdb_platform_id("unknown"), None);
}

#[test]
fn platform_mapping_aliases() {
    assert_eq!(get_igdb_platform_id("genesis"), Some(29));
    assert_eq!(get_igdb_platform_id("megadrive"), Some(29));
    assert_eq!(get_igdb_platform_id("pce"), Some(86));
    assert_eq!(get_igdb_platform_id("tg16"), Some(86));
    assert_eq!(get_igdb_platform_id("pcfx"), Some(274));
    assert_eq!(get_igdb_platform_id(""), None);
}
