use veteran_desktop::catalog::{sync_needed, CatalogService};
use veteran_desktop::game::{extract_version_name_from_release, normalize_size_field, Game};

#[test]
fn test_catalog_service_instantiation() {
    let _service = CatalogService::new();
    let hash = CatalogService::game_name_to_hash("Test Game");
    assert_eq!(hash.len(), 32);
}

#[test]
fn test_game_parsing_integration() {
    let content = "Header\nName;Rel;Pkg;1";
    let games = CatalogService::parse_game_list_content(content);
    assert_eq!(games.len(), 1);
    assert_eq!(games[0].game_name, "Name");
}

#[test]
fn test_game_name_to_hash() {
    let hash = CatalogService::game_name_to_hash("Test Game");
    assert_eq!(hash.len(), 32);
}

#[test]
fn game_name_to_hash_digests_release_and_newline() {
    // MD5 of a lone newline.
    assert_eq!(
        CatalogService::game_name_to_hash(""),
        "68b329da9893e34099c7d8ad5cb9c940"
    );
    assert_ne!(
        CatalogService::game_name_to_hash("a"),
        CatalogService::game_name_to_hash("b")
    );
}

#[test]
fn test_parse_deduplication() {
    let content =
        "Header\nGame;Rel1;com.test;10;2023-01-01;100;0\nGame;Rel2;com.test;11;2023-01-02;100;0";
    let games = CatalogService::parse_game_list_content(content);
    assert_eq!(games.len(), 1);
    assert_eq!(games[0].version_code, "11");
}

#[test]
fn test_load_from_cache() {
    let mut service = CatalogService::with_cache_dir("/tmp/catalog-cache");
    assert!(service.load_from_cache(Some("Header\nA;Rel;pkg.a;1;2023-01-01;10;1")));
    assert_eq!(service.games().len(), 1);
    assert_eq!(service.games()[0].package_name, "pkg.a");
}

#[test]
fn load_from_cache_without_text_changes_nothing() {
    let mut service = CatalogService::with_cache_dir("/tmp/catalog-cache");
    assert!(!service.load_from_cache(None));
    assert_eq!(service.games().len(), 0);
    assert!(!service.load_from_cache(Some("Header only")));
}

#[test]
fn cache_directories_are_joined_under_the_cache_dir() {
    let service = CatalogService::with_cache_dir("/var/cache/app");
    assert_eq!(service.cache_dir(), "/var/cache/app");
    assert_eq!(service.thumbnails_dir(), "/var/cache/app/thumbnails");
    assert_eq!(service.notes_dir(), "/var/cache/app/notes");
    assert_eq!(service.cache_file(), "/var/cache/app/VRP-GameList.txt");
    let trailing = CatalogService::with_cache_dir("/c/");
    assert_eq!(trailing.notes_dir(), "/c/notes");
}

#[test]
fn syncing_flag_round_trips() {
    let mut service = CatalogService::with_cache_dir("/tmp/x");
    assert!(!service.is_syncing());
    service.set_syncing(true);
    assert!(service.is_syncing());
}

#[test]
fn test_parse_modern_schema() {
    let row = "My Game;My Release v1+123;com.game;100;2023-01-01;1024;1000";
    let fields: Vec<&str> = row.split(';').collect();
    let game = Game::from_csv_row(&fields).unwrap();

    assert_eq!(game.game_name, "My Game");
    assert_eq!(game.release_name, "My Release v1+123");
    assert_eq!(game.package_name, "com.game");
    assert_eq!(game.version_code, "100");
    assert_eq!(game.last_updated, "2023-01-01");
    assert_eq!(game.size, "1024 MB");
    assert_eq!(game.downloads, "1000");
    assert_eq!(game.version_name, "123");
}

#[test]
fn test_parse_legacy_schema() {
    let row = "Old Game;Old Release;com.old;50;/path/to/apk;1.0;500;500 MB;2022-01-01";
    let fields: Vec<&str> = row.split(';').collect();
    let game = Game::from_csv_row(&fields).unwrap();

    assert_eq!(game.game_name, "Old Game");
    assert_eq!(game.release_apk_path, "/path/to/apk");
    assert_eq!(game.version_name, "1.0");
    assert_eq!(game.downloads, "500");
    assert_eq!(game.size, "500 MB");
    assert_eq!(game.last_updated, "2022-01-01");
}

#[test]
fn rows_with_fewer_than_four_fields_are_dropped() {
    let fields: Vec<&str> = "a;b;c".split(';').collect();
    assert!(Game::from_csv_row(&fields).is_none());
}

#[test]
fn modern_schema_accepts_size_with_unit() {
    let fields: Vec<&str> = "G;R v3+x-y;p;1;2024-05-06 10:00;1.5 gb;7".split(';').collect();
    let game = Game::from_csv_row(&fields).unwrap();
    assert_eq!(game.size, "1.5 gb");
    assert_eq!(game.version_name, "x");
    assert_eq!(game.last_updated, "2024-05-06 10:00");
}

#[test]
fn test_normalize_size() {
    assert_eq!(normalize_size_field("1024"), "1024 MB");
    assert_eq!(normalize_size_field("1.5"), "1.5 MB");
    assert_eq!(normalize_size_field("1.0"), "1 MB");
    assert_eq!(normalize_size_field("2 GB"), "2 GB");
    assert_eq!(normalize_size_field(""), "");
}

#[test]
fn test_extract_version_name() {
    assert_eq!(extract_version_name_from_release("Game v1+1.2.3"), "1.2.3");
    assert_eq!(extract_version_name_from_release("Game v2+build-456"), "build");
    assert_eq!(extract_version_name_from_release("No Version Here"), "");
}

#[test]
fn version_name_needs_a_word_boundary() {
    assert_eq!(extract_version_name_from_release("Gamev1+abc"), "");
    assert_eq!(extract_version_name_from_release("Game (V12+rc1)"), "rc1)");
}

#[test]
fn dedup_keeps_first_seen_order_and_highest_version() {
    let content = "h\nA;r1;p.a;5\nB;r2;p.b;1\nA;r3;p.a;3\nA;r4;p.a;7";
    let games = CatalogService::parse_game_list_content(content);
    assert_eq!(games.len(), 2);
    assert_eq!(games[0].package_name, "p.a");
    assert_eq!(games[0].version_code, "7");
    assert_eq!(games[0].release_name, "r4");
    assert_eq!(games[1].package_name, "p.b");
}

#[test]
fn dedup_breaks_numeric_ties_by_string() {
    // "x" and "y" both read as 0; the greater string wins.
    let content = "h\nA;r1;p;x\nA;r2;p;y\nA;r3;p;x";
    let games = CatalogService::parse_game_list_content(content);
    assert_eq!(games.len(), 1);
    assert_eq!(games[0].version_code, "y");
}

#[test]
fn popularity_ranks_descend_from_one() {
    let content = "h\nA;r;p.a;1;2023-01-01;10;5\nB;r;p.b;1;2023-01-01;10;50\nC;r;p.c;1;2023-01-01;10;0\nD;r;p.d;1;2023-01-01;10;n/a\nE;r;p.e;1;2023-01-01;10;7.5\nA2;r;p.a;2;2023-01-01;10;9";
    let games = CatalogService::parse_game_list_content(content);
    let rank = |p: &str| games.iter().find(|g| g.package_name == p).unwrap().popularity_rank;
    assert_eq!(rank("p.b"), 1);
    assert_eq!(rank("p.a"), 2);
    assert_eq!(rank("p.e"), 3);
    assert_eq!(rank("p.c"), 0);
    assert_eq!(rank("p.d"), 0);
}

#[test]
fn search_filters_case_insensitively() {
    let mut service = CatalogService::with_cache_dir("/tmp/s");
    service.load_content("h\nBeat Saber;Beat Saber v5+1.0;com.beat;5\nOther;Other v1+2;com.other;1\nBeat Saber;Beat Saber v4+0.9;com.beat;4");
    assert_eq!(service.search("").len(), 2);
    assert_eq!(service.search("  beat ").len(), 1);
    assert_eq!(service.search("COM.OTHER")[0].game_name, "Other");
    assert_eq!(service.search("release: v4").len(), 1);
    assert_eq!(service.search("pkg:com.beat").len(), 2);
    assert_eq!(service.search("nothing").len(), 0);
}

#[test]
fn lookups_by_package_and_release() {
    let mut service = CatalogService::with_cache_dir("/tmp/s");
    service.load_content("h\nG;R1;p;1\nG;R3;p;3\nG;R2;p;2\nH;Q;q;9");
    assert_eq!(service.get_game_by_package("p").unwrap().version_code, "3");
    assert!(service.get_game_by_package("zz").is_none());
    let versions: Vec<String> = service
        .get_games_by_package("p")
        .iter()
        .map(|g| g.release_name.clone())
        .collect();
    assert_eq!(versions, vec!["R3", "R2", "R1"]);
    assert_eq!(
        service.get_game_by_package_and_release("p", "R2").unwrap().version_code,
        "2"
    );
    assert!(service.get_game_by_package_and_release("q", "R2").is_none());
}

#[test]
fn cache_is_fresh_for_four_hours() {
    assert!(!sync_needed(false, Some(0)));
    assert!(!sync_needed(false, Some(14399)));
    assert!(sync_needed(false, Some(14400)));
    assert!(sync_needed(false, None));
    assert!(sync_needed(true, Some(10)));
}
