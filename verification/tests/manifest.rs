use ludusavi::dict::Dict;
use ludusavi::manifest::{
    CloudMetadata, Game, GameFileConstraint, GameFileEntry, GameInstallDirEntry,
    GameRegistryConstraint, GameRegistryEntry, GogMetadata, IdMetadata, Manifest, Os,
    SteamMetadata, Store, Tag,
};
use ludusavi::ranked::RankSet;

fn game<'a>(manifest: &'a Manifest, title: &str) -> &'a Game {
    manifest.0.get(title).unwrap()
}

#[test]
fn can_parse_game_with_no_fields() {
    let manifest = Manifest::load_from_string(
        r#"
            game: {}
            "#,
    )
    .unwrap();

    assert_eq!(
        Game {
            alias: None,
            files: Dict::new(),
            install_dir: Dict::new(),
            registry: Dict::new(),
            steam: Default::default(),
            gog: Default::default(),
            id: Default::default(),
            cloud: Default::default(),
        },
        *game(&manifest, "game"),
    );
}

#[test]
fn can_parse_game_with_all_fields() {
    let manifest = Manifest::load_from_string(
        r#"
            game:
              alias: other
              files:
                foo:
                  when:
                    - os: windows
                      store: steam
                  tags:
                    - save
              installDir:
                ExampleGame: {}
              registry:
                bar:
                  when:
                    - store: epic
                  tags:
                    - config
              steam:
                id: 101
              gog:
                id: 102
              id:
                flatpak: com.example.Game
                gogExtra: [10, 11]
                lutris: slug
                steamExtra: [1, 2]
              cloud:
                epic: true
                gog: true
                origin: true
                steam: true
                uplay: true
            "#,
    )
    .unwrap();

    let mut file_when = RankSet::new();
    file_when.insert(GameFileConstraint {
        os: Some(Os::Windows),
        store: Some(Store::Steam),
    });
    let mut file_tags = RankSet::new();
    file_tags.insert(Tag::Save);
    let mut files = Dict::new();
    files.insert(
        "foo".to_string(),
        GameFileEntry {
            when: file_when,
            tags: file_tags,
        },
    );

    let mut install_dir = Dict::new();
    install_dir.insert("ExampleGame".to_string(), GameInstallDirEntry {});

    let mut registry_when = RankSet::new();
    registry_when.insert(GameRegistryConstraint {
        store: Some(Store::Epic),
    });
    let mut registry_tags = RankSet::new();
    registry_tags.insert(Tag::Config);
    let mut registry = Dict::new();
    registry.insert(
        "bar".to_string(),
        GameRegistryEntry {
            when: registry_when,
            tags: registry_tags,
        },
    );

    let mut gog_extra = RankSet::new();
    gog_extra.insert(10);
    gog_extra.insert(11);
    let mut steam_extra = RankSet::new();
    steam_extra.insert(1);
    steam_extra.insert(2);

    assert_eq!(
        Game {
            alias: Some("other".to_string()),
            files,
            install_dir,
            registry,
            steam: SteamMetadata { id: Some(101) },
            gog: GogMetadata { id: Some(102) },
            id: IdMetadata {
                flatpak: Some("com.example.Game".to_string()),
                gog_extra,
                lutris: Some("slug".to_string()),
                steam_extra,
            },
            cloud: CloudMetadata {
                epic: true,
                gog: true,
                origin: true,
                steam: true,
                uplay: true
            },
        },
        *game(&manifest, "game"),
    );
}

#[test]
fn can_parse_game_with_minimal_files() {
    let manifest = Manifest::load_from_string(
        r#"
            game:
              files: {}
            "#,
    )
    .unwrap();

    assert!(game(&manifest, "game").files.is_empty());
}

#[test]
fn can_parse_game_with_minimal_files_when() {
    let manifest = Manifest::load_from_string(
        r#"
            game:
              files:
                foo:
                  when: []
            "#,
    )
    .unwrap();

    assert!(game(&manifest, "game").files.get("foo").unwrap().when.is_empty());
}

#[test]
fn can_parse_game_with_minimal_files_when_item() {
    let manifest = Manifest::load_from_string(
        r#"
            game:
              files:
                foo:
                  when:
                    - {}
            "#,
    )
    .unwrap();

    assert_eq!(
        GameFileConstraint { os: None, store: None },
        game(&manifest, "game").files.get("foo").unwrap().when.first().unwrap(),
    );
}

#[test]
fn can_parse_game_with_minimal_files_tags() {
    let manifest = Manifest::load_from_string(
        r#"
            game:
              files:
                foo:
                  tags: []
            "#,
    )
    .unwrap();

    assert!(game(&manifest, "game").files.get("foo").unwrap().tags.is_empty());
}

#[test]
fn can_parse_game_with_minimal_install_dir() {
    let manifest = Manifest::load_from_string(
        r#"
            game:
              installDir: {}
            "#,
    )
    .unwrap();

    assert!(game(&manifest, "game").install_dir.is_empty());
}

#[test]
fn can_parse_game_with_minimal_registry() {
    let manifest = Manifest::load_from_string(
        r#"
            game:
              registry: {}
            "#,
    )
    .unwrap();

    assert!(game(&manifest, "game").registry.is_empty());
}

#[test]
fn can_parse_game_with_minimal_registry_when() {
    let manifest = Manifest::load_from_string(
        r#"
            game:
              registry:
                foo:
                  when: []
            "#,
    )
    .unwrap();

    assert!(game(&manifest, "game").registry.get("foo").unwrap().when.is_empty());
}

#[test]
fn can_parse_game_with_minimal_registry_when_item() {
    let manifest = Manifest::load_from_string(
        r#"
            game:
              registry:
                foo:
                  when:
                    - {}
            "#,
    )
    .unwrap();

    assert_eq!(
        GameRegistryConstraint { store: None },
        game(&manifest, "game").registry.get("foo").unwrap().when.first().unwrap(),
    );
}

#[test]
fn can_parse_game_with_minimal_registry_tags() {
    let manifest = Manifest::load_from_string(
        r#"
            game:
              registry:
                foo:
                  tags: []
            "#,
    )
    .unwrap();

    assert!(game(&manifest, "game").registry.get("foo").unwrap().tags.is_empty());
}

#[test]
fn can_parse_game_with_minimal_steam() {
    let manifest = Manifest::load_from_string(
        r#"
            game:
              steam: {}
            "#,
    )
    .unwrap();

    assert_eq!(SteamMetadata { id: None }, game(&manifest, "game").steam);
}

#[test]
fn can_parse_game_with_minimal_gog() {
    let manifest = Manifest::load_from_string(
        r#"
            game:
              gog: {}
            "#,
    )
    .unwrap();

    assert_eq!(GogMetadata { id: None }, game(&manifest, "game").gog);
}

#[test]
fn can_get_aliases() {
    let manifest = Manifest::load_from_string(
        r#"
            foo: {}
            bar:
              alias: foo
            baz:
              alias: bar
            "#,
    )
    .unwrap();

    let mut expected = Dict::new();
    expected.insert("bar".to_string(), "foo".to_string());
    expected.insert("baz".to_string(), "foo".to_string());
    assert_eq!(expected, manifest.aliases());
}
