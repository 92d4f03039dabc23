use ludusavi::decode::{os_from_name, store_from_name};
use ludusavi::manifest::{
    GameFileConstraint, GameRegistryConstraint, Manifest, Os, Store, Tag,
};
use ludusavi::tree::{Node, Numeral};

fn s(text: &str) -> String {
    text.to_string()
}

#[test]
fn yaml_documents_become_trees() {
    assert_eq!(
        Ok(Node::Mapping(vec![
            (Node::Text(s("b")), Node::Numeral(Numeral::Unsigned(1))),
            (
                Node::Text(s("a")),
                Node::List(vec![
                    Node::Null,
                    Node::Bool(false),
                    Node::Numeral(Numeral::Negative(-2)),
                    Node::Text(s("x")),
                ])
            ),
            (Node::Numeral(Numeral::Unsigned(7)), Node::Mapping(vec![])),
        ])),
        Node::from_yaml("b: 1\na: [~, false, -2, x]\n7: {}")
    );
    assert!(Node::from_yaml("a: [unclosed").is_err());
    assert!(Node::from_yaml("a: 1\na: 2").is_err());
    match Node::from_yaml("a: !thing 5") {
        Ok(Node::Mapping(entries)) => assert_eq!(
            Node::Tagged(s("!thing"), Box::new(Node::Numeral(Numeral::Unsigned(5)))),
            entries[0].1
        ),
        other => panic!("{:?}", other),
    }
}

#[test]
fn empty_document_is_an_empty_manifest() {
    assert_eq!(Ok(Manifest::default()), Manifest::load_from_string(""));
    assert_eq!(Ok(Manifest::default()), Manifest::load_from_string("{}"));
    assert_eq!(Ok(Manifest::default()), Manifest::from_node(&Node::Null));
}

#[test]
fn null_parts_count_as_left_out() {
    let manifest = Manifest::load_from_string(
        "game:\n  alias: ~\n  files:\n  registry: null\n  steam:\n    id:\n  cloud:\n    epic: ~\nother:",
    )
    .unwrap();
    assert_eq!(
        Manifest::load_from_string("game: {}\nother: {}").unwrap(),
        manifest
    );
}

#[test]
fn unknown_fields_are_passed_over() {
    assert_eq!(
        Manifest::load_from_string("game: { steam: { id: 5 } }").unwrap(),
        Manifest::load_from_string(
            "game: { launch: { x: 1 }, steam: { id: 5, other: [1] }, 7: true }"
        )
        .unwrap()
    );
}

#[test]
fn fields_of_the_wrong_kind_are_refused() {
    for text in [
        "[]",
        "text",
        "5",
        "game: []",
        "game: text",
        "5: {}",
        "game: { alias: 5 }",
        "game: { alias: [a] }",
        "game: { files: [] }",
        "game: { files: { 5: {} } }",
        "game: { files: { a: [] } }",
        "game: { files: { a: { tags: save } } }",
        "game: { files: { a: { tags: [5] } } }",
        "game: { files: { a: { when: {} } } }",
        "game: { files: { a: { when: [x] } } }",
        "game: { files: { a: { when: [{ os: 5 }] } } }",
        "game: { files: { a: { when: [{ store: [] }] } } }",
        "game: { installDir: [] }",
        "game: { installDir: { a: 5 } }",
        "game: { registry: { a: { when: [{ store: 1 }] } } }",
        "game: { steam: 5 }",
        "game: { steam: { id: x } }",
        "game: { steam: { id: -1 } }",
        "game: { steam: { id: 4294967296 } }",
        "game: { steam: { id: 1.5 } }",
        "game: { gog: { id: -1 } }",
        "game: { gog: [] }",
        "game: { id: [] }",
        "game: { id: { flatpak: 5 } }",
        "game: { id: { lutris: {} } }",
        "game: { id: { gogExtra: 5 } }",
        "game: { id: { steamExtra: [x] } }",
        "game: { id: { steamExtra: [4294967296] } }",
        "game: { cloud: true }",
        "game: { cloud: { epic: 1 } }",
        "game: { cloud: { uplay: yes } }",
        "game: !tag {}",
    ] {
        assert!(Manifest::load_from_string(text).is_err(), "{}", text);
    }
    assert!(Manifest::load_from_string("game: { steam: { id: 4294967295 } }").is_ok());
    assert!(Manifest::load_from_string("game: { gog: { id: 18446744073709551615 } }").is_ok());
}

#[test]
fn names_that_are_not_known_stand_for_other() {
    let manifest = Manifest::load_from_string(
        r#"
        game:
          files:
            a:
              tags: [save, config, savegame, Save]
              when:
                - os: windows
                - os: linux
                - os: mac
                - os: macos
                - os: Windows
                - store: gogGalaxy
                - store: goggalaxy
                - os: dos
                  store: otherWine
          registry:
            b:
              when:
                - store: ea
                - store: itch
        "#,
    )
    .unwrap();
    let game = manifest.0.get("game").unwrap();
    let file = game.files.get("a").unwrap();
    assert_eq!(3, file.tags.len());
    assert!(file.tags.contains(&Tag::Save));
    assert!(file.tags.contains(&Tag::Config));
    assert!(file.tags.contains(&Tag::Other));
    let expected = [
        (None, Some(Store::GogGalaxy)),
        (None, Some(Store::Other)),
        (Some(Os::Windows), None),
        (Some(Os::Linux), None),
        (Some(Os::Mac), None),
        (Some(Os::Other), None),
        (Some(Os::Other), Some(Store::OtherWine)),
    ];
    assert_eq!(expected.len(), file.when.len());
    for (i, (os, store)) in expected.into_iter().enumerate() {
        assert_eq!(GameFileConstraint { os, store }, file.when.item(i));
    }
    let registry = game.registry.get("b").unwrap();
    assert_eq!(
        GameRegistryConstraint {
            store: Some(Store::Ea)
        },
        registry.when.item(0)
    );
    assert_eq!(
        GameRegistryConstraint {
            store: Some(Store::Other)
        },
        registry.when.item(1)
    );
}

#[test]
fn every_store_has_its_name() {
    let names = [
        "ea",
        "epic",
        "gog",
        "gogGalaxy",
        "heroic",
        "legendary",
        "lutris",
        "microsoft",
        "origin",
        "prime",
        "steam",
        "uplay",
        "otherHome",
        "otherWine",
        "otherWindows",
        "otherLinux",
        "otherMac",
        "other",
    ];
    let all = Store::all();
    assert_eq!(names.len(), all.len());
    for (name, store) in names.iter().zip(all) {
        assert_eq!(store, store_from_name(name));
    }
    assert_eq!(Store::Other, store_from_name("Steam"));
    assert_eq!(Store::Other, Store::default());
    assert_eq!(Os::Windows, os_from_name("windows"));
    assert_eq!(Os::Other, os_from_name("macos"));
    assert_eq!(Tag::Other, Tag::default());
}
