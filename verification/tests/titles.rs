use ludusavi::dict::Dict;
use ludusavi::manifest::{Game, GogMetadata, Manifest, Os, SteamMetadata};
use ludusavi::titles::ALIAS_HOPS;

fn s(text: &str) -> String {
    text.to_string()
}

fn alias(to: &str) -> Game {
    let mut game = Game::default();
    game.alias = Some(s(to));
    game
}

/// `t0` is an alias of `t1`, which is one of `t2`, and so on to `t<n>`,
/// which is no alias.
fn chain(n: usize) -> Manifest {
    let mut games = Dict::new();
    for i in 0..n {
        games.insert(format!("t{}", i), alias(&format!("t{}", i + 1)));
    }
    games.insert(format!("t{}", n), Game::default());
    Manifest(games)
}

fn load(text: &str) -> Manifest {
    Manifest::load_from_string(text).unwrap()
}

#[test]
fn alias_chain_below_the_limit_resolves() {
    assert_eq!(100, ALIAS_HOPS);
    let manifest = chain(99);
    assert_eq!(Some(s("t99")), manifest.resolve("t0"));
    assert_eq!(Some(s("t99")), manifest.resolve("t98"));
    assert_eq!(None, manifest.resolve("t99"));
    let aliases = manifest.aliases();
    assert_eq!(99, aliases.len());
    assert_eq!(Some(&s("t99")), aliases.get("t0"));
    assert_eq!(None, aliases.get("t99"));
}

#[test]
fn alias_chain_at_the_limit_resolves_to_nothing() {
    let manifest = chain(100);
    assert_eq!(None, manifest.resolve("t0"));
    assert_eq!(Some(s("t100")), manifest.resolve("t1"));
    let aliases = manifest.aliases();
    assert_eq!(99, aliases.len());
    assert_eq!(None, aliases.get("t0"));
    assert_eq!(None, chain(150).resolve("t0"));
    assert_eq!(None, chain(150).resolve("t50"));
    assert_eq!(Some(s("t150")), chain(150).resolve("t51"));
}

#[test]
fn alias_cycle_resolves_to_nothing() {
    let manifest = load("a: { alias: b }\nb: { alias: a }\nc: { alias: c }\nd: { alias: a }");
    assert!(manifest.aliases().is_empty());
    assert_eq!(None, manifest.resolve("a"));
    assert_eq!(None, manifest.resolve("c"));
    assert_eq!(None, manifest.resolve("d"));
}

#[test]
fn alias_to_a_missing_title_resolves_to_nothing() {
    let manifest = load("a: { alias: missing }\nb: { alias: a }\nc: {}");
    assert!(manifest.aliases().is_empty());
    assert_eq!(None, manifest.resolve("missing"));
}

#[test]
fn processable_games_have_something_to_look_for() {
    let manifest = load(
        r#"
        alias: { alias: files, files: { x: {} } }
        empty: {}
        files: { files: { x: {} } }
        registry: { registry: { x: {} } }
        steam: { steam: { id: 1 } }
        gog: { gog: { id: 1 } }
        flatpak: { id: { flatpak: x } }
        lutris: { id: { lutris: x } }
        extra: { id: { steamExtra: [1] } }
        hints: { installDir: { x: {} } }
        cloud: { cloud: { steam: true } }
        "#,
    );
    assert_eq!(
        vec!["extra", "files", "flatpak", "gog", "lutris", "registry", "steam"],
        manifest.processable_titles()
    );
    let games = manifest.processable_games();
    assert_eq!(7, games.len());
    assert_eq!("files", games[1].0);
    assert_eq!(manifest.0.get("files").unwrap(), games[1].1);
    assert!(!manifest.0.get("alias").unwrap().is_processable());
    assert!(manifest.0.get("steam").unwrap().is_processable());
    assert!(Manifest::default().processable_titles().is_empty());
}

#[test]
fn primary_titles_are_no_aliases() {
    let manifest = load("b: {}\na: { alias: b }\nc: { files: { x: {} } }");
    assert_eq!(vec![s("b"), s("c")], manifest.primary_titles());
}

#[test]
fn ids_lead_to_titles() {
    let manifest = load(
        r#"
        one:
          steam: { id: 1 }
          gog: { id: 10 }
          id: { steamExtra: [2, 3], gogExtra: [11], lutris: one-slug }
        two:
          steam: { id: 3 }
          id: { gogExtra: [10, 12], lutris: two-slug }
        three: {}
        "#,
    );
    let steam = manifest.map_steam_ids_to_names();
    assert_eq!(3, steam.len());
    assert_eq!("one", steam[&1]);
    assert_eq!("one", steam[&2]);
    assert_eq!("two", steam[&3]);
    let gog = manifest.map_gog_ids_to_names();
    assert_eq!(3, gog.len());
    assert_eq!("two", gog[&10]);
    assert_eq!("one", gog[&11]);
    assert_eq!("two", gog[&12]);
    let lutris = manifest.map_lutris_ids_to_names();
    assert_eq!(2, lutris.len());
    assert_eq!(Some(&s("one")), lutris.get("one-slug"));
    assert_eq!(Some(&s("two")), lutris.get("two-slug"));
}

#[test]
fn metadata_emptiness() {
    assert!(SteamMetadata { id: None }.is_empty());
    assert!(!SteamMetadata { id: Some(0) }.is_empty());
    assert!(GogMetadata { id: None }.is_empty());
    assert!(!GogMetadata { id: Some(0) }.is_empty());
    let manifest = load("a: { id: { gogExtra: [1] } }\nb: { id: {} }\nc: { cloud: { uplay: true } }");
    assert!(!manifest.0.get("a").unwrap().id.is_empty());
    assert!(manifest.0.get("b").unwrap().id.is_empty());
    assert!(!manifest.0.get("c").unwrap().cloud.is_empty());
    assert!(manifest.0.get("a").unwrap().cloud.is_empty());
}

#[test]
fn case_sensitivity_by_os() {
    assert!(!Os::Windows.is_case_sensitive());
    assert!(!Os::Mac.is_case_sensitive());
    assert!(Os::Linux.is_case_sensitive());
    assert!(Os::Other.is_case_sensitive());
}

#[test]
fn os_from_platform_name() {
    assert_eq!(Os::Windows, Os::from("windows"));
    assert_eq!(Os::Windows, Os::from("Windows"));
    assert_eq!(Os::Linux, Os::from("LINUX"));
    assert_eq!(Os::Mac, Os::from("Mac"));
    assert_eq!(Os::Mac, Os::from("macOS"));
    assert_eq!(Os::Other, Os::from("darwin"));
    assert_eq!(Os::Other, Os::from(""));
    assert_eq!(Os::Other, Os::from_platform("Windows"));
    assert_eq!(Os::Other, Os::default());
}
