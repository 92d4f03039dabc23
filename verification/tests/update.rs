use ludusavi::error::Error;
use ludusavi::manifest::Manifest;
use ludusavi::update::{
    is_update_due, CachedManifest, Fetched, ManifestUpdate, Timestamp, UpdateRequest,
    UpdateResponse, UpdateTarget,
};

fn s(text: &str) -> String {
    text.to_string()
}

fn at(secs: i64) -> Timestamp {
    Timestamp { secs, nanos: 0 }
}

fn cached(etag: Option<&str>, checked: Option<Timestamp>) -> CachedManifest {
    CachedManifest {
        etag: etag.map(s),
        checked,
        updated: None,
    }
}

const HOUR: i64 = 3600;
const NOW: i64 = 1_700_000_000;

#[test]
fn update_is_due_after_a_day() {
    assert!(is_update_due(true, true, true, Some(0)));
    assert!(is_update_due(false, false, true, Some(0)));
    assert!(is_update_due(false, true, false, Some(0)));
    assert!(!is_update_due(false, true, true, Some(0)));
    assert!(!is_update_due(false, true, true, Some(23)));
    assert!(is_update_due(false, true, true, Some(24)));
    assert!(!is_update_due(false, true, true, Some(-48)));
    assert!(is_update_due(false, true, true, None));
}

#[test]
fn should_update_counts_whole_hours() {
    let day_ago = cached(None, Some(at(NOW - 24 * HOUR)));
    let almost = cached(
        None,
        Some(Timestamp {
            secs: NOW - 24 * HOUR,
            nanos: 1,
        }),
    );
    let never = cached(None, None);
    assert!(Manifest::should_update(Some(&day_ago), true, false, at(NOW)));
    assert!(!Manifest::should_update(Some(&almost), true, false, at(NOW)));
    assert!(Manifest::should_update(Some(&never), true, false, at(NOW)));
    assert!(!Manifest::should_update(Some(&never), true, false, at(23 * HOUR)));
    assert!(Manifest::should_update(Some(&almost), true, true, at(NOW)));
    assert!(Manifest::should_update(Some(&almost), false, false, at(NOW)));
    assert!(Manifest::should_update(None, true, false, at(NOW)));
    let future = cached(None, Some(at(NOW + 100 * HOUR)));
    assert!(!Manifest::should_update(Some(&future), true, false, at(NOW)));
}

#[test]
fn request_carries_the_tag_of_the_copy_at_hand() {
    let old = cached(Some("abc"), Some(at(0)));
    assert_eq!(
        Some(UpdateRequest {
            url: s("https://example.com/m.yaml"),
            if_none_match: Some(s("abc")),
        }),
        Manifest::request_update("https://example.com/m.yaml", Some(&old), true, false, at(NOW))
    );
    assert_eq!(
        Some(UpdateRequest {
            url: s("u"),
            if_none_match: None,
        }),
        Manifest::request_update("u", Some(&old), false, false, at(NOW))
    );
    assert_eq!(
        Some(UpdateRequest {
            url: s("u"),
            if_none_match: None,
        }),
        Manifest::request_update("u", None, true, false, at(NOW))
    );
    let recent = cached(Some("abc"), Some(at(NOW - HOUR)));
    assert_eq!(
        None,
        Manifest::request_update("u", Some(&recent), true, false, at(NOW))
    );
}

#[test]
fn new_manifest_is_stored_if_valid() {
    assert_eq!(
        Ok(Fetched {
            update: ManifestUpdate {
                url: s("u"),
                etag: Some(s("new")),
                timestamp: at(NOW),
                modified: true,
            },
            content: Some(s("game: {}")),
        }),
        Manifest::update_one(
            "u",
            false,
            Some(s("old")),
            UpdateResponse::Status {
                code: 200,
                body: Some(s("game: {}")),
                etag: Some(s("new")),
            },
            at(NOW)
        )
    );
}

#[test]
fn invalid_manifest_is_refused() {
    let response = || UpdateResponse::Status {
        code: 200,
        body: Some(s("game: [1, 2]")),
        etag: None,
    };
    match Manifest::update_one("u", false, None, response(), at(NOW)) {
        Err(Error::ManifestInvalid { why, identifier }) => {
            assert_eq!(Some(s("u")), identifier);
            assert!(!why.is_empty());
        }
        other => panic!("{:?}", other),
    }
    match Manifest::update_one("u", true, None, response(), at(NOW)) {
        Err(Error::ManifestInvalid { identifier, .. }) => assert_eq!(None, identifier),
        other => panic!("{:?}", other),
    }
    match Manifest::update_one(
        "u",
        false,
        None,
        UpdateResponse::Status {
            code: 200,
            body: Some(s("a: [unclosed")),
            etag: None,
        },
        at(NOW),
    ) {
        Err(Error::ManifestInvalid { .. }) => {}
        other => panic!("{:?}", other),
    }
}

#[test]
fn unchanged_manifest_keeps_its_tag() {
    assert_eq!(
        Ok(Fetched {
            update: ManifestUpdate {
                url: s("u"),
                etag: Some(s("old")),
                timestamp: at(NOW),
                modified: false,
            },
            content: None,
        }),
        Manifest::update_one(
            "u",
            true,
            Some(s("old")),
            UpdateResponse::Status {
                code: 304,
                body: None,
                etag: Some(s("ignored")),
            },
            at(NOW)
        )
    );
}

#[test]
fn other_answers_are_failures() {
    let failed = |primary: bool| {
        Err(Error::ManifestCannotBeUpdated {
            identifier: if primary { None } else { Some(s("u")) },
        })
    };
    for code in [100, 199, 201, 204, 301, 404, 500] {
        assert_eq!(
            failed(false),
            Manifest::update_one(
                "u",
                false,
                None,
                UpdateResponse::Status {
                    code,
                    body: Some(s("game: {}")),
                    etag: None
                },
                at(NOW)
            )
        );
    }
    assert_eq!(
        failed(true),
        Manifest::update_one("u", true, None, UpdateResponse::Unreachable, at(NOW))
    );
    assert_eq!(
        failed(false),
        Manifest::update_one(
            "u",
            false,
            None,
            UpdateResponse::Status {
                code: 200,
                body: None,
                etag: None
            },
            at(NOW)
        )
    );
    assert_eq!(
        Error::ManifestCannotBeUpdated {
            identifier: Some(s("u"))
        },
        Manifest::cannot_update("u", false)
    );
}

#[test]
fn first_failure_is_told_and_every_update_kept() {
    let update = |url: &str| ManifestUpdate {
        url: s(url),
        etag: None,
        timestamp: at(NOW),
        modified: true,
    };
    let first = Error::ManifestCannotBeUpdated {
        identifier: Some(s("b")),
    };
    let second = Error::ManifestInvalid {
        why: s("bad"),
        identifier: Some(s("d")),
    };
    assert_eq!(
        (vec![update("a"), update("e")], Err(first.clone())),
        Manifest::update_mut(vec![
            Ok(Some(update("a"))),
            Err(first),
            Ok(None),
            Err(second),
            Ok(Some(update("e"))),
        ])
    );
    assert_eq!(
        (vec![update("a")], Ok(())),
        Manifest::update_mut(vec![Ok(None), Ok(Some(update("a")))])
    );
    assert_eq!((vec![], Ok(())), Manifest::update_mut(vec![]));
}

#[test]
fn sources_to_update() {
    let secondary = vec![s("x"), s("y")];
    let target = |url: &str, primary: bool| UpdateTarget {
        url: s(url),
        primary,
    };
    assert_eq!(
        vec![target("p", true), target("x", false), target("y", false)],
        Manifest::update(true, false, "p", &secondary)
    );
    assert_eq!(
        vec![target("p", true)],
        Manifest::update(false, true, "p", &vec![])
    );
    assert_eq!(
        vec![target("x", false), target("y", false)],
        Manifest::update(false, false, "p", &secondary)
    );
}

#[test]
fn manifest_file_names() {
    assert_eq!("manifest.yaml", Manifest::file_name_for("ignored", true));
    assert_eq!(
        "manifest-example.com_m.yaml",
        Manifest::file_name_for("example.com_m", false)
    );
    assert_eq!(
        "/data/manifest-x.yaml",
        Manifest::path_for("/data", "x", false)
    );
    assert_eq!("/data/manifest.yaml", Manifest::path_for("/data", "x", true));
    assert_eq!("https://example.com/m", Manifest::file_stem_for("https://example.com/m.yaml"));
    assert_eq!("m", Manifest::file_stem_for("m.yaml.yaml"));
    assert_eq!("m.yml", Manifest::file_stem_for("m.yml"));
    assert_eq!("", Manifest::file_stem_for(".yaml"));
    assert_eq!("", Manifest::file_stem_for(""));
    assert_eq!("a.yaml.b", Manifest::file_stem_for("a.yaml.b"));
}

#[test]
fn primary_manifest_is_loaded_from_its_text() {
    assert_eq!(
        Manifest::load_from_string("a: {}").unwrap(),
        Manifest::load("a: {}").unwrap()
    );
    match Manifest::load("a: 5") {
        Err(Error::ManifestInvalid { identifier, .. }) => assert_eq!(None, identifier),
        other => panic!("{:?}", other),
    }
    assert_eq!(Timestamp { secs: 0, nanos: 0 }, Timestamp::default());
}
