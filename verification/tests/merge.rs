use ludusavi::dict::Dict;
use ludusavi::manifest::{
    CloudMetadata, Game, GameFileEntry, GameInstallDirEntry, GameRegistryEntry, GogMetadata,
    Manifest, SteamMetadata, Tag,
};
use ludusavi::merge::{normalize_path, reversed, CustomGame, SecondaryManifest};
use ludusavi::ranked::RankSet;

fn s(text: &str) -> String {
    text.to_string()
}

fn tagged(tag: Tag) -> GameFileEntry {
    let mut tags = RankSet::new();
    tags.insert(tag);
    GameFileEntry {
        tags,
        when: RankSet::new(),
    }
}

fn registry_tagged(tag: Tag) -> GameRegistryEntry {
    let mut tags = RankSet::new();
    tags.insert(tag);
    GameRegistryEntry {
        tags,
        when: RankSet::new(),
    }
}

fn load(text: &str) -> Manifest {
    Manifest::load_from_string(text).unwrap()
}

#[test]
fn relative_paths_start_at_the_base() {
    assert_eq!("<base>/x", normalize_path(s("./x")));
    assert_eq!("<base>/x", normalize_path(s(".\\x")));
    assert_eq!("<base>/../x", normalize_path(s("../x")));
    assert_eq!("<base>/../x", normalize_path(s("..\\x")));
    assert_eq!("<base>/", normalize_path(s("./")));
    assert_eq!("<base>/../", normalize_path(s("../")));
    assert_eq!("<base>/a/./b", normalize_path(s("./a/./b")));
}

#[test]
fn other_paths_stay_as_they_are() {
    for path in ["", ".", "..", "x", "/x", "<base>/x", "<home>/./x", ".x", "...", "a/../b", "C:\\x"] {
        assert_eq!(path, normalize_path(s(path)));
    }
}

#[test]
fn normalizing_a_game_keeps_the_entries() {
    let mut game = Game::default();
    game.files.insert(s("./save.dat"), tagged(Tag::Save));
    game.files.insert(s("<home>/config.ini"), tagged(Tag::Config));
    game.normalize_relative_paths();
    assert_eq!(
        vec![s("<base>/save.dat"), s("<home>/config.ini")],
        game.files.key_list()
    );
    assert_eq!(Some(&tagged(Tag::Save)), game.files.get("<base>/save.dat"));
    assert_eq!(Some(&tagged(Tag::Config)), game.files.get("<home>/config.ini"));
}

#[test]
fn of_paths_with_one_normal_form_the_last_stays() {
    let mut game = Game::default();
    game.files.insert(s(".\\x"), tagged(Tag::Config));
    game.files.insert(s("./x"), tagged(Tag::Save));
    game.normalize_relative_paths();
    assert_eq!(vec![s("<base>/x")], game.files.key_list());
    assert_eq!(Some(&tagged(Tag::Config)), game.files.get("<base>/x"));

    let mut game = Game::default();
    game.files.insert(s("<base>/x"), tagged(Tag::Other));
    game.files.insert(s(".\\x"), tagged(Tag::Config));
    game.normalize_relative_paths();
    assert_eq!(Some(&tagged(Tag::Other)), game.files.get("<base>/x"));
}

#[test]
fn secondary_manifest_overrides_known_game() {
    let mut manifest = load(
        r#"
        game:
          files:
            <base>/a: { tags: [save] }
            <base>/b: { tags: [save] }
          registry:
            HKEY_CURRENT_USER/a: { tags: [save] }
          installDir:
            Game: {}
          steam:
            id: 1
          id:
            lutris: slug
            steamExtra: [5]
          cloud:
            steam: true
        "#,
    );
    let secondary = load(
        r#"
        game:
          alias: ignored
          files:
            ./b: { tags: [config] }
            ./c: { tags: [config] }
          registry:
            HKEY_CURRENT_USER/a: { tags: [config] }
            HKEY_CURRENT_USER/b: {}
          installDir:
            Other: {}
          steam:
            id: 2
          gog:
            id: 3
          id:
            flatpak: com.example
            lutris: other
            steamExtra: [6]
            gogExtra: [7]
          cloud:
            epic: true
        "#,
    );
    manifest.incorporate_secondary_manifest(Some(s("mods")), secondary);

    let game = manifest.0.get("game").unwrap();
    assert_eq!(None, game.alias);
    assert_eq!(
        vec![s("<base>/a"), s("<base>/b"), s("<base>/c")],
        game.files.key_list()
    );
    assert_eq!(Some(&tagged(Tag::Save)), game.files.get("<base>/a"));
    assert_eq!(Some(&tagged(Tag::Config)), game.files.get("<base>/b"));
    assert_eq!(Some(&tagged(Tag::Config)), game.files.get("<base>/c"));
    assert_eq!(
        Some(&registry_tagged(Tag::Config)),
        game.registry.get("HKEY_CURRENT_USER/a")
    );
    assert_eq!(
        Some(&GameRegistryEntry::default()),
        game.registry.get("HKEY_CURRENT_USER/b")
    );
    assert_eq!(vec![s("Game"), s("Other"), s("mods")], game.install_dir.key_list());
    assert_eq!(SteamMetadata { id: Some(1) }, game.steam);
    assert_eq!(GogMetadata { id: Some(3) }, game.gog);
    assert_eq!(Some(s("com.example")), game.id.flatpak);
    assert_eq!(Some(s("slug")), game.id.lutris);
    assert!(game.id.steam_extra.contains(&5) && game.id.steam_extra.contains(&6));
    assert_eq!(2, game.id.steam_extra.len());
    assert!(game.id.gog_extra.contains(&7));
    assert_eq!(
        CloudMetadata {
            epic: false,
            gog: false,
            origin: false,
            steam: true,
            uplay: false
        },
        game.cloud
    );
}

#[test]
fn secondary_manifest_adds_new_game_with_folder_hint() {
    let mut manifest = load("known: {}");
    let secondary = load(
        r#"
        fresh:
          files:
            ../shared/save: {}
          installDir:
            Fresh: {}
        "#,
    );
    manifest.incorporate_secondary_manifest(Some(s("MyMod")), secondary);
    assert_eq!(vec![s("fresh"), s("known")], manifest.0.key_list());
    let game = manifest.0.get("fresh").unwrap();
    assert_eq!(vec![s("Fresh"), s("MyMod")], game.install_dir.key_list());
    assert_eq!(vec![s("<base>/../shared/save")], game.files.key_list());
    assert_eq!(&Game::default(), manifest.0.get("known").unwrap());
}

#[test]
fn secondary_manifest_without_folder_adds_no_hint() {
    let mut manifest = Manifest::default();
    manifest.incorporate_secondary_manifest(None, load("fresh: {}"));
    assert!(manifest.0.get("fresh").unwrap().install_dir.is_empty());
    let mut manifest = load("fresh: {}");
    manifest.incorporate_secondary_manifest(None, load("fresh: {}"));
    assert!(manifest.0.get("fresh").unwrap().install_dir.is_empty());
}

#[test]
fn custom_game_has_no_cloud_and_keeps_ids() {
    let mut manifest = load(
        r#"
        game:
          alias: old
          files:
            gone: {}
          installDir:
            Game: {}
          steam:
            id: 1
          gog:
            id: 2
          id:
            lutris: slug
          cloud:
            epic: true
            gog: true
            origin: true
            steam: true
            uplay: true
        "#,
    );
    manifest.add_custom_game(CustomGame {
        name: s("game"),
        ignore: false,
        alias: None,
        files: vec![s("b"), s("a"), s("b")],
        registry: vec![s("HKEY_CURRENT_USER/x")],
    });
    let game = manifest.0.get("game").unwrap();
    assert_eq!(CloudMetadata::default(), game.cloud);
    assert!(game.cloud.is_empty());
    assert_eq!(None, game.alias);
    assert_eq!(vec![s("a"), s("b")], game.files.key_list());
    assert_eq!(Some(&GameFileEntry::default()), game.files.get("a"));
    assert_eq!(vec![s("HKEY_CURRENT_USER/x")], game.registry.key_list());
    assert_eq!(vec![s("Game")], game.install_dir.key_list());
    assert_eq!(SteamMetadata { id: Some(1) }, game.steam);
    assert_eq!(GogMetadata { id: Some(2) }, game.gog);
    assert_eq!(Some(s("slug")), game.id.lutris);
}

#[test]
fn custom_game_of_unknown_title_is_added() {
    let mut manifest = Manifest::default();
    manifest.add_custom_game(CustomGame {
        name: s("mine"),
        ignore: false,
        alias: Some(s("other")),
        files: vec![],
        registry: vec![],
    });
    let mut expected = Game::default();
    expected.alias = Some(s("other"));
    assert_eq!(&expected, manifest.0.get("mine").unwrap());
}

#[test]
fn extensions_apply_in_order() {
    let primary = load(
        r#"
        a:
          files:
            one: { tags: [save] }
        b: {}
        "#,
    );
    let secondary = vec![
        SecondaryManifest {
            folder: Some(s("first")),
            manifest: load("a: { files: { one: { tags: [config] }, two: {} } }"),
        },
        SecondaryManifest {
            folder: Some(s("second")),
            manifest: load("a: { files: { one: {} } }\nc: {}"),
        },
    ];
    let custom = vec![
        CustomGame {
            name: s("b"),
            ignore: true,
            alias: None,
            files: vec![s("ignored")],
            registry: vec![],
        },
        CustomGame {
            name: s("c"),
            ignore: false,
            alias: None,
            files: vec![s("mine")],
            registry: vec![],
        },
    ];
    let merged = primary.with_extensions(true, secondary, custom);
    assert_eq!(vec![s("a"), s("b"), s("c")], merged.0.key_list());
    let a = merged.0.get("a").unwrap();
    assert_eq!(Some(&GameFileEntry::default()), a.files.get("one"));
    assert_eq!(vec![s("first"), s("second")], a.install_dir.key_list());
    assert_eq!(&Game::default(), merged.0.get("b").unwrap());
    let c = merged.0.get("c").unwrap();
    assert_eq!(vec![s("mine")], c.files.key_list());
    assert_eq!(vec![s("second")], c.install_dir.key_list());
}

#[test]
fn disabled_primary_manifest_is_left_out() {
    let mut manifest = load("a: {}\nb: {}");
    manifest.incorporate_extensions(
        false,
        vec![SecondaryManifest {
            folder: None,
            manifest: load("c: {}"),
        }],
        vec![],
    );
    assert_eq!(vec![s("c")], manifest.0.key_list());
    let mut manifest = load("a: {}");
    manifest.incorporate_extensions(false, vec![], vec![]);
    assert!(manifest.0.is_empty());
    let mut manifest = load("a: {}");
    manifest.incorporate_extensions(true, vec![], vec![]);
    assert_eq!(load("a: {}"), manifest);
}

#[test]
fn install_dir_entry_is_plain() {
    assert_eq!(GameInstallDirEntry {}, GameInstallDirEntry::default());
}

#[test]
fn reversed_turns_a_list_round() {
    assert_eq!(vec![3u8, 2, 1], reversed(vec![1u8, 2, 3]));
    assert_eq!(Vec::<u8>::new(), reversed(Vec::<u8>::new()));
}
