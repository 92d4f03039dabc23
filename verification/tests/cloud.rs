use ludusavi::cloud::{
    validate_cloud_config, validate_cloud_path, with_extra_args, App, ConfigureStep, Finality,
    Privacy, Rclone, Remote, RemoteChoice, SyncDirection, WebDavProvider,
};
use ludusavi::error::Error;

fn s(text: &str) -> String {
    text.to_string()
}

fn strings(items: &[&str]) -> Vec<String> {
    items.iter().map(|x| x.to_string()).collect()
}

fn ftp() -> Remote {
    Remote::Ftp {
        host: s("example.com"),
        port: 21,
        username: s("alice"),
        password: s("secret"),
    }
}

fn app(arguments: &str) -> App {
    App {
        path: s("/usr/bin/rclone"),
        arguments: s(arguments),
    }
}

#[test]
fn cloud_path_must_name_a_place() {
    assert_eq!(Err(Error::CloudPathInvalid), validate_cloud_path(""));
    assert_eq!(Err(Error::CloudPathInvalid), validate_cloud_path("/"));
    assert_eq!(Ok(()), validate_cloud_path("games/backup"));
    assert_eq!(Ok(()), validate_cloud_path("//"));
    assert_eq!(Ok(()), validate_cloud_path("/games"));
}

#[test]
fn cloud_config_is_checked_in_order() {
    assert_eq!(
        Err(Error::RcloneUnavailable),
        validate_cloud_config(false, None, "")
    );
    assert_eq!(
        Err(Error::RcloneUnavailable),
        validate_cloud_config(false, Some(Remote::Box), "games")
    );
    assert_eq!(
        Err(Error::CloudNotConfigured),
        validate_cloud_config(true, None, "games")
    );
    assert_eq!(
        Err(Error::CloudPathInvalid),
        validate_cloud_config(true, Some(Remote::Box), "/")
    );
    assert_eq!(
        Ok(Remote::Dropbox),
        validate_cloud_config(true, Some(Remote::Dropbox), "games/backup")
    );
}

#[test]
fn remote_names_and_slugs() {
    let custom = Remote::Custom { name: s("mine") };
    assert_eq!("mine", custom.name());
    assert_eq!("", custom.slug());
    assert_eq!("ludusavi", Remote::Box.name());
    assert_eq!("box", Remote::Box.slug());
    assert_eq!("dropbox", Remote::Dropbox.slug());
    assert_eq!("drive", Remote::GoogleDrive.slug());
    assert_eq!("onedrive", Remote::OneDrive.slug());
    assert_eq!("ftp", ftp().slug());
    assert_eq!("ludusavi", ftp().name());
    let smb = Remote::Smb {
        host: s("h"),
        port: 445,
        username: s("u"),
        password: s("p"),
    };
    assert_eq!("smb", smb.slug());
    let webdav = Remote::WebDav {
        url: s("https://example.com/dav"),
        username: s("u"),
        password: s("p"),
        provider: WebDavProvider::Nextcloud,
    };
    assert_eq!("webdav", webdav.slug());
}

#[test]
fn remote_config_args_per_backend() {
    assert_eq!(None, Remote::Custom { name: s("mine") }.config_args());
    assert_eq!(None, Remote::Box.config_args());
    assert_eq!(None, Remote::Dropbox.config_args());
    assert_eq!(
        Some(strings(&["scope=drive"])),
        Remote::GoogleDrive.config_args()
    );
    assert_eq!(
        Some(strings(&[
            "drive_type=personal",
            "access_scopes=Files.ReadWrite,offline_access"
        ])),
        Remote::OneDrive.config_args()
    );
    assert_eq!(
        Some(strings(&[
            "host=example.com",
            "port=21",
            "user=alice",
            "pass=secret"
        ])),
        ftp().config_args()
    );
    assert_eq!(
        Some(strings(&["host=nas", "port=-445", "user=bob", "pass="])),
        Remote::Smb {
            host: s("nas"),
            port: -445,
            username: s("bob"),
            password: s(""),
        }
        .config_args()
    );
    assert_eq!(
        Some(strings(&[
            "url=https://example.com/dav",
            "user=carol",
            "pass=pw",
            "vendor=sharepoint-ntlm"
        ])),
        Remote::WebDav {
            url: s("https://example.com/dav"),
            username: s("carol"),
            password: s("pw"),
            provider: WebDavProvider::SharepointNtlm,
        }
        .config_args()
    );
}

#[test]
fn ports_are_written_in_decimal() {
    for (port, text) in [
        (0, "port=0"),
        (9, "port=9"),
        (10, "port=10"),
        (65535, "port=65535"),
        (i32::MAX, "port=2147483647"),
        (i32::MIN, "port=-2147483648"),
        (-1, "port=-1"),
    ] {
        let remote = Remote::Ftp {
            host: s(""),
            port,
            username: s(""),
            password: s(""),
        };
        assert_eq!(text, remote.config_args().unwrap()[1]);
    }
}

#[test]
fn only_custom_remotes_need_no_configuration() {
    assert!(!Remote::Custom { name: s("mine") }.needs_configuration());
    assert!(Remote::Box.needs_configuration());
    assert!(Remote::Dropbox.needs_configuration());
    assert!(Remote::GoogleDrive.needs_configuration());
    assert!(Remote::OneDrive.needs_configuration());
    assert!(ftp().needs_configuration());
}

#[test]
fn remote_descriptions() {
    assert_eq!(Some(s("alice@example.com:21")), ftp().description("Other"));
    assert_eq!(
        Some(s("bob@nas:445")),
        Remote::Smb {
            host: s("nas"),
            port: 445,
            username: s("bob"),
            password: s("pw"),
        }
        .description("Other")
    );
    assert_eq!(
        Some(s("Nextcloud - https://example.com/dav")),
        Remote::WebDav {
            url: s("https://example.com/dav"),
            username: s("carol"),
            password: s("pw"),
            provider: WebDavProvider::Nextcloud,
        }
        .description("Other")
    );
    assert_eq!(
        Some(s("Andere - u")),
        Remote::WebDav {
            url: s("u"),
            username: s(""),
            password: s(""),
            provider: WebDavProvider::Other,
        }
        .description("Andere")
    );
    assert_eq!(None, Remote::Box.description("Other"));
    assert_eq!(None, Remote::Custom { name: s("mine") }.description("Other"));
}

#[test]
fn webdav_providers_by_slug() {
    for provider in WebDavProvider::all() {
        assert_eq!(Ok(provider), WebDavProvider::from_slug(provider.slug()));
    }
    assert_eq!(
        vec!["other", "nextcloud", "owncloud", "sharepoint", "sharepoint-ntlm"],
        WebDavProvider::all().iter().map(|x| x.slug()).collect::<Vec<_>>()
    );
    assert_eq!(
        vec!["other", "nextcloud", "owncloud", "sharepoint", "sharepoint-ntlm"],
        WebDavProvider::all_cli()
    );
    assert_eq!(
        Err(s("invalid provider: Nextcloud")),
        WebDavProvider::from_slug("Nextcloud")
    );
    assert_eq!(Err(s("invalid provider: ")), WebDavProvider::from_slug(""));
    assert_eq!("Sharepoint (NTLM)", WebDavProvider::SharepointNtlm.label("x"));
    assert_eq!("x", WebDavProvider::Other.label("x"));
}

#[test]
fn remote_choices() {
    assert_eq!(RemoteChoice::Unset, RemoteChoice::from(None));
    assert_eq!(RemoteChoice::Ftp, RemoteChoice::from(Some(&ftp())));
    assert_eq!(
        RemoteChoice::Custom,
        RemoteChoice::from(Some(&Remote::Custom { name: s("mine") }))
    );
    assert_eq!(Err(()), Remote::from_choice(RemoteChoice::Unset));
    assert_eq!(
        Ok(Remote::Custom { name: s("ludusavi") }),
        Remote::from_choice(RemoteChoice::Custom)
    );
    assert_eq!(
        Ok(Remote::Ftp {
            host: s(""),
            port: 21,
            username: s(""),
            password: s("")
        }),
        Remote::from_choice(RemoteChoice::Ftp)
    );
    assert_eq!(
        Ok(Remote::Smb {
            host: s(""),
            port: 445,
            username: s(""),
            password: s("")
        }),
        Remote::from_choice(RemoteChoice::Smb)
    );
    assert_eq!(
        Ok(Remote::WebDav {
            url: s(""),
            username: s(""),
            password: s(""),
            provider: WebDavProvider::Other
        }),
        Remote::from_choice(RemoteChoice::WebDav)
    );
    for choice in RemoteChoice::all() {
        match Remote::from_choice(choice) {
            Ok(remote) => assert_eq!(choice, RemoteChoice::from(Some(&remote))),
            Err(()) => assert_eq!(RemoteChoice::Unset, choice),
        }
    }
    assert_eq!(9, RemoteChoice::all().len());
    assert_eq!("none", RemoteChoice::Unset.label("none", "custom"));
    assert_eq!("custom", RemoteChoice::Custom.label("none", "custom"));
    assert_eq!("Google Drive", RemoteChoice::GoogleDrive.label("none", "custom"));
    assert_eq!("WebDAV", RemoteChoice::WebDav.label("none", "custom"));
}

#[test]
fn extra_arguments_go_first() {
    assert_eq!(
        strings(&["--a", "b", "sync"]),
        with_extra_args(Some(strings(&["--a", "b"])), &strings(&["sync"]))
    );
    assert_eq!(strings(&["sync"]), with_extra_args(None, &strings(&["sync"])));
    assert_eq!(strings(&[]), with_extra_args(Some(vec![]), &vec![]));
}

#[test]
fn user_arguments_are_split_like_a_shell_would() {
    let rclone = Rclone::new(app("--fast-list  -q 'two words' a\\ b"), Remote::Box);
    assert_eq!(
        strings(&["--fast-list", "-q", "two words", "a b", "lsd"]),
        rclone.args(&strings(&["lsd"]))
    );
    let broken = Rclone::new(app("--name 'unfinished"), Remote::Box);
    assert_eq!(strings(&["lsd"]), broken.args(&strings(&["lsd"])));
    let none = Rclone::new(app(""), Remote::Box);
    assert_eq!(strings(&["lsd"]), none.args(&strings(&["lsd"])));
}

#[test]
fn remote_paths() {
    assert_eq!(
        "ludusavi:games/backup",
        Rclone::new(app(""), Remote::Box).path("games/backup")
    );
    assert_eq!(
        "mine:x",
        Rclone::new(app(""), Remote::Custom { name: s("mine") }).path("x")
    );
}

#[test]
fn sync_upload_with_filters() {
    let rclone = Rclone::new(app("--verbose"), Remote::Dropbox);
    let invocation = rclone.sync(
        "/home/me/backup",
        "games",
        SyncDirection::Upload,
        Finality::Preview,
        &strings(&["Game One", "game-2"]),
    );
    assert_eq!("/usr/bin/rclone", invocation.program);
    assert_eq!(
        strings(&[
            "--verbose",
            "sync",
            "-v",
            "--use-json-log",
            "--stats=100ms",
            "--dry-run",
            "--include=/Game One/**",
            "--include=/game-2/**",
            "/home/me/backup",
            "ludusavi:games",
        ]),
        invocation.args
    );
    assert_eq!(vec![0], invocation.success);
    assert_eq!(Privacy::Public, invocation.privacy);
}

#[test]
fn sync_download_is_reversed() {
    let rclone = Rclone::new(app(""), Remote::Custom { name: s("mine") });
    let invocation = rclone.sync(
        "/home/me/backup",
        "games",
        SyncDirection::Download,
        Finality::Final,
        &vec![],
    );
    assert_eq!(
        strings(&[
            "sync",
            "-v",
            "--use-json-log",
            "--stats=100ms",
            "mine:games",
            "/home/me/backup",
        ]),
        invocation.args
    );
}

#[test]
fn custom_remote_is_not_configured() {
    let rclone = Rclone::new(app(""), Remote::Custom { name: s("mine") });
    assert_eq!(ConfigureStep::Done, rclone.configure_remote());
}

#[test]
fn remote_without_password_is_created_at_once() {
    let rclone = Rclone::new(app("-q"), Remote::GoogleDrive);
    match rclone.configure_remote() {
        ConfigureStep::Create(invocation) => {
            assert_eq!(
                strings(&["-q", "config", "create", "ludusavi", "drive", "scope=drive"]),
                invocation.args
            );
            assert_eq!(Privacy::Public, invocation.privacy);
            assert_eq!(vec![0], invocation.success);
            assert_eq!("/usr/bin/rclone", invocation.program);
        }
        other => panic!("{:?}", other),
    }
    match Rclone::new(app(""), Remote::Box).configure_remote() {
        ConfigureStep::Create(invocation) => {
            assert_eq!(
                strings(&["config", "create", "ludusavi", "box"]),
                invocation.args
            );
        }
        other => panic!("{:?}", other),
    }
}

#[test]
fn password_is_obscured_before_the_remote_is_created() {
    let rclone = Rclone::new(app(""), ftp());
    match rclone.configure_remote() {
        ConfigureStep::Obscure(invocation) => {
            assert_eq!(strings(&["obscure", "secret"]), invocation.args);
            assert_eq!(Privacy::Private, invocation.privacy);
        }
        other => panic!("{:?}", other),
    }
    let create = rclone.create_remote("0bscur3d");
    assert_eq!(
        strings(&[
            "config",
            "create",
            "ludusavi",
            "ftp",
            "host=example.com",
            "port=21",
            "user=alice",
            "pass=0bscur3d",
        ]),
        create.args
    );
    assert_eq!(Privacy::Private, create.privacy);
    assert!(!create.args.contains(&s("pass=secret")));
}

#[test]
fn finality_preview() {
    assert!(Finality::Preview.preview());
    assert!(!Finality::Final.preview());
}
