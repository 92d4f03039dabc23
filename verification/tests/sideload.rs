use ludusavi::manifest::Os;
use ludusavi::sideload::{
    get_library, launcher_game, scan, Data, Finding, Game, Install, LauncherGame, LauncherGames,
    PATH,
};

fn s(text: &str) -> String {
    text.to_string()
}

fn game(app_name: &str, platform: Option<&str>) -> Game {
    Game {
        app_name: s(app_name),
        title: format!("Title of {}", app_name),
        install: Install {
            platform: platform.map(s),
        },
        folder_name: Some(format!("/games/{}", app_name)),
    }
}

#[test]
fn library_is_read_from_its_text() {
    assert_eq!("sideload_apps/library.json", PATH);
    let library = get_library(
        r#"{
            "games": [
                {"app_name": "b", "title": "Title of b", "install": {"platform": "Windows"}, "folder_name": "/games/b", "extra": 1},
                {"app_name": "a", "title": "Title of a", "install": {}, "folder_name": "/games/a"},
                {"app_name": "b", "title": "Title of b", "install": {"platform": "linux"}, "folder_name": "/games/b"},
                {"app_name": "c", "title": "", "install": {"platform": null}, "folder_name": null}
            ]
        }"#,
    );
    assert_eq!(3, library.len());
    assert_eq!(Some(&game("a", None)), library.get("a"));
    assert_eq!(Some(&game("b", Some("linux"))), library.get("b"));
    assert_eq!(
        Some(&Game {
            app_name: s("c"),
            title: s(""),
            install: Install { platform: None },
            folder_name: None,
        }),
        library.get("c")
    );
    let data = Data {
        games: vec![game("a", None)],
    };
    assert_eq!(1, data.games.len());
}

#[test]
fn library_that_makes_no_sense_is_empty() {
    for text in [
        "",
        "not json",
        "[]",
        "{}",
        r#"{"games": {}}"#,
        r#"{"games": [{"app_name": "a", "title": "t"}]}"#,
        r#"{"games": [{"app_name": "a", "install": {}}]}"#,
        r#"{"games": [{"title": "t", "install": {}}]}"#,
        r#"{"games": [{"app_name": 5, "title": "t", "install": {}}]}"#,
        r#"{"games": [{"app_name": "a", "title": "t", "install": null}]}"#,
        r#"{"games": [{"app_name": "a", "title": "t", "install": {"platform": 5}}]}"#,
        r#"{"games": [{"app_name": "a", "title": "t", "install": {}, "folder_name": 5}]}"#,
        r#"{"games": [{"app_name": "ok", "title": "t", "install": {}}, 5]}"#,
    ] {
        assert!(get_library(text).is_empty(), "{}", text);
    }
    assert_eq!(0, get_library(r#"{"games": []}"#).len());
}

#[test]
fn launcher_game_reads_the_platform() {
    assert_eq!(
        LauncherGame {
            install_dir: Some(s("/games/a")),
            prefix: Some(s("/prefixes/a")),
            platform: Some(Os::Windows),
        },
        launcher_game(game("a", Some("Windows")), Some(s("/prefixes/a")))
    );
    assert_eq!(
        LauncherGame {
            install_dir: Some(s("/games/a")),
            prefix: None,
            platform: None,
        },
        launcher_game(game("a", None), None)
    );
}

#[test]
fn scan_gathers_games_by_title() {
    let found = scan(vec![
        Finding {
            title: Some(s("game-1")),
            game: game("game-1", Some("windows")),
            prefix: Some(s("/prefixes/game-1")),
        },
        Finding {
            title: None,
            game: game("unknown", Some("windows")),
            prefix: None,
        },
        Finding {
            title: Some(s("game-1")),
            game: game("game-1", Some("WINDOWS")),
            prefix: Some(s("/prefixes/game-1")),
        },
        Finding {
            title: Some(s("game-1")),
            game: game("game-1", Some("linux")),
            prefix: None,
        },
        Finding {
            title: Some(s("game-2")),
            game: game("other", None),
            prefix: None,
        },
    ]);
    assert_eq!(2, found.len());
    assert_eq!(
        Some(&LauncherGames(vec![
            LauncherGame {
                install_dir: Some(s("/games/game-1")),
                prefix: Some(s("/prefixes/game-1")),
                platform: Some(Os::Windows),
            },
            LauncherGame {
                install_dir: Some(s("/games/game-1")),
                prefix: None,
                platform: Some(Os::Linux),
            },
        ])),
        found.get("game-1")
    );
    assert_eq!(
        Some(&LauncherGames(vec![LauncherGame {
            install_dir: Some(s("/games/other")),
            prefix: None,
            platform: None,
        }])),
        found.get("game-2")
    );
    assert!(scan(vec![]).is_empty());
}
