use friendly_filer::enemy::{
    classify, extension_from_file_name, hp_from_size, kind_of_extension, to_ascii_lower, EnemyKind,
    MAX_ENEMY_HP,
};

#[test]
fn classify_by_extension() {
    assert_eq!(classify("main.rs"), EnemyKind::Nimble);
    assert_eq!(classify("path/to/lib.RS"), EnemyKind::Nimble);
    assert_eq!(classify("server.log"), EnemyKind::Heavy);
    assert_eq!(classify("screenshot.png"), EnemyKind::Floaty);
    assert_eq!(classify("README"), EnemyKind::Default);
    assert_eq!(classify("data.tar.gz"), EnemyKind::Default);
}

#[test]
fn hp_is_in_range_and_grows_with_size() {
    assert_eq!(hp_from_size(0), 1);
    assert_eq!(hp_from_size(100), 1);
    assert_eq!(hp_from_size(1024), 1);
    // ~8 KB -> log2(8)=3
    assert_eq!(hp_from_size(8 * 1024), 3);
    // Huge files clamp to 5.
    assert_eq!(hp_from_size(10 * 1024 * 1024 * 1024), 5);
}

#[test]
fn classify_ignores_case_of_every_letter() {
    assert_eq!(classify("Server.LoG"), EnemyKind::Heavy);
    assert_eq!(classify("SHOT.PNG"), EnemyKind::Floaty);
    assert_eq!(classify("x.Rs"), EnemyKind::Nimble);
}

#[test]
fn classify_uses_the_path_extension_rules() {
    // A leading dot alone is not an extension.
    assert_eq!(classify(".rs"), EnemyKind::Default);
    // The last component counts, even behind a trailing slash.
    assert_eq!(classify("dir.png/lib.rs"), EnemyKind::Nimble);
    assert_eq!(classify("lib.rs/"), EnemyKind::Nimble);
    // A name ending in a dot has an empty extension.
    assert_eq!(classify("notes."), EnemyKind::Default);
    // A parent reference has no file name at all.
    assert_eq!(classify("main.rs/.."), EnemyKind::Default);
    // Similar but different extensions.
    assert_eq!(classify("main.rsx"), EnemyKind::Default);
    assert_eq!(classify("main.r"), EnemyKind::Default);
    assert_eq!(classify(""), EnemyKind::Default);
}

#[test]
fn hp_thresholds_are_ceil_log2_kb() {
    assert_eq!(hp_from_size(1025), 1);
    assert_eq!(hp_from_size(2048), 1);
    assert_eq!(hp_from_size(2049), 2);
    assert_eq!(hp_from_size(4096), 2);
    assert_eq!(hp_from_size(4097), 3);
    assert_eq!(hp_from_size(8192), 3);
    assert_eq!(hp_from_size(8193), 4);
    assert_eq!(hp_from_size(16384), 4);
    assert_eq!(hp_from_size(16385), 5);
    assert_eq!(hp_from_size(u64::MAX), MAX_ENEMY_HP);
}

#[test]
fn hp_never_decreases_with_size() {
    let mut prev = hp_from_size(0);
    let mut size: u64 = 0;
    while size <= 40 * 1024 {
        let hp = hp_from_size(size);
        assert!(hp >= prev && (1..=5).contains(&hp));
        prev = hp;
        size += 97;
    }
}

#[test]
fn ascii_lowering_touches_only_capitals() {
    assert_eq!(to_ascii_lower('A'), 'a');
    assert_eq!(to_ascii_lower('Z'), 'z');
    assert_eq!(to_ascii_lower('a'), 'a');
    assert_eq!(to_ascii_lower('@'), '@');
    assert_eq!(to_ascii_lower('['), '[');
    assert_eq!(to_ascii_lower('É'), 'É');
}

#[test]
fn kind_of_extension_table() {
    assert_eq!(kind_of_extension(Some(vec!['r', 's'])), EnemyKind::Nimble);
    assert_eq!(kind_of_extension(Some(vec!['R', 's'])), EnemyKind::Nimble);
    assert_eq!(kind_of_extension(Some(vec!['l', 'O', 'G'])), EnemyKind::Heavy);
    assert_eq!(kind_of_extension(Some(vec!['p', 'n', 'g'])), EnemyKind::Floaty);
    assert_eq!(kind_of_extension(Some(vec!['j', 'p', 'g'])), EnemyKind::Floaty);
    assert_eq!(kind_of_extension(Some(vec!['b', 'i', 'N'])), EnemyKind::Heavy);
    assert_eq!(kind_of_extension(Some(vec!['c'])), EnemyKind::Nimble);
    assert_eq!(kind_of_extension(Some(vec!['t', 'x', 't'])), EnemyKind::Default);
    assert_eq!(kind_of_extension(Some(vec!['g', 'z'])), EnemyKind::Default);
    assert_eq!(kind_of_extension(Some(vec![])), EnemyKind::Default);
    assert_eq!(kind_of_extension(None), EnemyKind::Default);
}

#[test]
fn classify_by_documented_families() {
    assert_eq!(classify("photo.jpg"), EnemyKind::Floaty);
    assert_eq!(classify("photo.JPEG"), EnemyKind::Floaty);
    assert_eq!(classify("song.mp3"), EnemyKind::Floaty);
    assert_eq!(classify("data.bin"), EnemyKind::Heavy);
    assert_eq!(classify("disk.iso"), EnemyKind::Heavy);
    assert_eq!(classify("main.c"), EnemyKind::Nimble);
    assert_eq!(classify("tool.py"), EnemyKind::Nimble);
    assert_eq!(classify("notes.txt"), EnemyKind::Default);
}

fn ext(name: &str) -> Option<String> {
    let chars: Vec<char> = name.chars().collect();
    extension_from_file_name(&chars).map(|v| v.into_iter().collect())
}

#[test]
fn extension_follows_the_documented_rule() {
    assert_eq!(ext("main.rs"), Some("rs".to_string()));
    assert_eq!(ext("data.tar.gz"), Some("gz".to_string()));
    assert_eq!(ext("README"), None);
    assert_eq!(ext(".bashrc"), None);
    assert_eq!(ext(".config.toml"), Some("toml".to_string()));
    assert_eq!(ext("..a"), Some("a".to_string()));
    assert_eq!(ext("notes."), Some(String::new()));
    assert_eq!(ext(""), None);
    // Agrees with std on these names.
    for name in ["main.rs", "data.tar.gz", "README", ".bashrc", ".config.toml", "..a", "notes."] {
        let std_ext = std::path::Path::new(name).extension().map(|e| e.to_str().unwrap().to_string());
        assert_eq!(ext(name), std_ext, "{name}");
    }
}
