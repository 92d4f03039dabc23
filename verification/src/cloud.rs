//! Remote storage backends and the command lines of the synchronisation tool.

use vstd::prelude::*;
use crate::error::Error;
use crate::text::{glue, decimal_i64, lemma_push_text, signed_decimal, str_eq};

verus! {

/// Checks that a path on the remote names a place other than the root.
pub fn validate_cloud_path(path: &str) -> (r: Result<(), Error>)
    ensures
        r is Err <==> (path@.len() == 0 || path@ == seq!['/']),
        r matches Err(e) ==> e is CloudPathInvalid,
{
    proof {
        reveal_strlit("/");
        assert("/"@ =~= seq!['/']);
    }
    if path.unicode_len() == 0 || str_eq(path, "/") {
        Err(Error::CloudPathInvalid)
    } else {
        Ok(())
    }
}

/// Checks that a synchronisation can be started: the tool is there, a remote
/// is chosen, and the path on it is usable. Hands the chosen remote back.
pub fn validate_cloud_config(rclone_valid: bool, remote: Option<Remote>, cloud_path: &str) -> (r:
    Result<Remote, Error>)
    ensures
        !rclone_valid ==> r == Err::<Remote, Error>(Error::RcloneUnavailable),
        rclone_valid && remote is None ==> r == Err::<Remote, Error>(Error::CloudNotConfigured),
        rclone_valid && remote is Some && (cloud_path@.len() == 0 || cloud_path@ == seq!['/'])
            ==> r == Err::<Remote, Error>(Error::CloudPathInvalid),
        rclone_valid && remote is Some && !(cloud_path@.len() == 0 || cloud_path@ == seq!['/'])
            ==> r == Ok::<Remote, Error>(remote->0),
{
    if !rclone_valid {
        return Err(Error::RcloneUnavailable);
    }
    let remote = match remote {
        Some(remote) => remote,
        None => {
            return Err(Error::CloudNotConfigured);
        },
    };
    match validate_cloud_path(cloud_path) {
        Ok(()) => Ok(remote),
        Err(_) => Err(Error::CloudPathInvalid),
    }
}

/// The flavour of a WebDAV server.
#[derive(Clone, Copy, Debug, PartialEq, Eq, Structural)]
pub enum WebDavProvider {
    Other,
    Nextcloud,
    Owncloud,
    Sharepoint,
    SharepointNtlm,
}

impl WebDavProvider {
    /// The name by which the synchronisation tool knows the provider.
    pub open spec fn slug_text(self) -> Seq<char> {
        match self {
            WebDavProvider::Other => "other"@,
            WebDavProvider::Nextcloud => "nextcloud"@,
            WebDavProvider::Owncloud => "owncloud"@,
            WebDavProvider::Sharepoint => "sharepoint"@,
            WebDavProvider::SharepointNtlm => "sharepoint-ntlm"@,
        }
    }

    /// The name shown to a user; `other_label` is the localised word for a
    /// provider that is none of the known ones.
    pub open spec fn label_text(self, other_label: Seq<char>) -> Seq<char> {
        match self {
            WebDavProvider::Other => other_label,
            WebDavProvider::Nextcloud => "Nextcloud"@,
            WebDavProvider::Owncloud => "Owncloud"@,
            WebDavProvider::Sharepoint => "Sharepoint"@,
            WebDavProvider::SharepointNtlm => "Sharepoint (NTLM)"@,
        }
    }

    /// Every provider, in the order in which they are offered.
    pub fn all() -> (r: Vec<WebDavProvider>)
        ensures
            r@ == seq![
                WebDavProvider::Other,
                WebDavProvider::Nextcloud,
                WebDavProvider::Owncloud,
                WebDavProvider::Sharepoint,
                WebDavProvider::SharepointNtlm,
            ],
    {
        let mut r = Vec::new();
        r.push(WebDavProvider::Other);
        r.push(WebDavProvider::Nextcloud);
        r.push(WebDavProvider::Owncloud);
        r.push(WebDavProvider::Sharepoint);
        r.push(WebDavProvider::SharepointNtlm);
        assert(r@ =~= seq![
            WebDavProvider::Other,
            WebDavProvider::Nextcloud,
            WebDavProvider::Owncloud,
            WebDavProvider::Sharepoint,
            WebDavProvider::SharepointNtlm,
        ]);
        r
    }

    /// The slugs of all providers, in the order of `all`.
    pub fn all_cli() -> (r: Vec<&'static str>)
        ensures
            r.len() == 5,
            r[0]@ == WebDavProvider::Other.slug_text(),
            r[1]@ == WebDavProvider::Nextcloud.slug_text(),
            r[2]@ == WebDavProvider::Owncloud.slug_text(),
            r[3]@ == WebDavProvider::Sharepoint.slug_text(),
            r[4]@ == WebDavProvider::SharepointNtlm.slug_text(),
    {
        let mut r: Vec<&'static str> = Vec::new();
        r.push(WebDavProvider::Other.slug());
        r.push(WebDavProvider::Nextcloud.slug());
        r.push(WebDavProvider::Owncloud.slug());
        r.push(WebDavProvider::Sharepoint.slug());
        r.push(WebDavProvider::SharepointNtlm.slug());
        r
    }

    /// The name by which the synchronisation tool knows the provider.
    pub fn slug(&self) -> (r: &'static str)
        ensures
            r@ == self.slug_text(),
    {
        match self {
            WebDavProvider::Other => "other",
            WebDavProvider::Nextcloud => "nextcloud",
            WebDavProvider::Owncloud => "owncloud",
            WebDavProvider::Sharepoint => "sharepoint",
            WebDavProvider::SharepointNtlm => "sharepoint-ntlm",
        }
    }

    pub fn label(&self, other_label: &str) -> (r: String)
        ensures
            r@ == self.label_text(other_label@),
    {
        match self {
            WebDavProvider::Other => String::from_str(other_label),
            WebDavProvider::Nextcloud => String::from_str("Nextcloud"),
            WebDavProvider::Owncloud => String::from_str("Owncloud"),
            WebDavProvider::Sharepoint => String::from_str("Sharepoint"),
            WebDavProvider::SharepointNtlm => String::from_str("Sharepoint (NTLM)"),
        }
    }

    /// Reads a provider from its slug. Any other text is refused, with a
    /// message that quotes it.
    pub fn from_slug(s: &str) -> (r: Result<WebDavProvider, String>)
        ensures
            r matches Ok(p) ==> p.slug_text() == s@,
            r matches Err(message) ==> message@ == "invalid provider: "@ + s@ && forall|
                p: WebDavProvider,
            |
                p.slug_text() != s@,
    {
        if str_eq(s, "other") {
            Ok(WebDavProvider::Other)
        } else if str_eq(s, "nextcloud") {
            Ok(WebDavProvider::Nextcloud)
        } else if str_eq(s, "owncloud") {
            Ok(WebDavProvider::Owncloud)
        } else if str_eq(s, "sharepoint") {
            Ok(WebDavProvider::Sharepoint)
        } else if str_eq(s, "sharepoint-ntlm") {
            Ok(WebDavProvider::SharepointNtlm)
        } else {
            Err(glue("invalid provider: ", s))
        }
    }
}

/// A configured remote: where backups are mirrored to.
#[derive(Clone, Debug, PartialEq, Eq)]
pub enum Remote {
    /// A remote that the user has set up in the tool's own configuration.
    Custom { name: String },
    Box,
    Dropbox,
    GoogleDrive,
    OneDrive,
    Ftp { host: String, port: i32, username: String, password: String },
    Smb { host: String, port: i32, username: String, password: String },
    WebDav { url: String, username: String, password: String, provider: WebDavProvider },
}

/// `key=value`, as the tool takes the settings of a new remote.
pub open spec fn setting(key: Seq<char>, value: Seq<char>) -> Seq<char> {
    key + value
}

fn make_setting(key: &str, value: &str) -> (r: String)
    ensures
        r@ == setting(key@, value@),
{
    glue(key, value)
}

/// `user@host:port`, as a connection is shown to a user.
pub open spec fn host_summary(username: Seq<char>, host: Seq<char>, port: int) -> Seq<char> {
    username + seq!['@'] + host + seq![':'] + signed_decimal(port)
}

fn make_host_summary(username: &str, host: &str, port: i32) -> (r: String)
    ensures
        r@ == host_summary(username@, host@, port as int),
{
    proof {
        reveal_strlit("@");
        reveal_strlit(":");
        assert("@"@ =~= seq!['@']);
        assert(":"@ =~= seq![':']);
    }
    let mut r = String::from_str(username);
    r.append("@");
    r.append(host);
    r.append(":");
    let digits = decimal_i64(port as i64);
    r.append(digits.as_str());
    r
}

impl Remote {
    /// The name under which the remote stands in the tool's configuration.
    pub open spec fn name_text(&self) -> Seq<char> {
        match self {
            Remote::Custom { name } => name@,
            _ => "ludusavi"@,
        }
    }

    /// The tool's name for the kind of backend; none for a custom remote.
    pub open spec fn slug_text(&self) -> Seq<char> {
        match self {
            Remote::Custom { .. } => ""@,
            Remote::Box => "box"@,
            Remote::Dropbox => "dropbox"@,
            Remote::Ftp { .. } => "ftp"@,
            Remote::GoogleDrive => "drive"@,
            Remote::OneDrive => "onedrive"@,
            Remote::Smb { .. } => "smb"@,
            Remote::WebDav { .. } => "webdav"@,
        }
    }

    /// The settings that creating the remote takes, with `password` in the
    /// place of the remote's own.
    pub open spec fn config_args_with(&self, password: Seq<char>) -> Option<Seq<Seq<char>>> {
        match self {
            Remote::Custom { .. } => None,
            Remote::Box => None,
            Remote::Dropbox => None,
            Remote::GoogleDrive => Some(seq!["scope=drive"@]),
            Remote::Ftp { host, port, username, .. } => Some(
                seq![
                    setting("host="@, host@),
                    setting("port="@, signed_decimal(*port as int)),
                    setting("user="@, username@),
                    setting("pass="@, password),
                ],
            ),
            Remote::OneDrive => Some(
                seq!["drive_type=personal"@, "access_scopes=Files.ReadWrite,offline_access"@],
            ),
            Remote::Smb { host, port, username, .. } => Some(
                seq![
                    setting("host="@, host@),
                    setting("port="@, signed_decimal(*port as int)),
                    setting("user="@, username@),
                    setting("pass="@, password),
                ],
            ),
            Remote::WebDav { url, username, provider, .. } => Some(
                seq![
                    setting("url="@, url@),
                    setting("user="@, username@),
                    setting("pass="@, password),
                    setting("vendor="@, provider.slug_text()),
                ],
            ),
        }
    }

    /// The password that the remote holds, where its kind has one.
    pub open spec fn password_text(&self) -> Option<Seq<char>> {
        match self {
            Remote::Ftp { password, .. } => Some(password@),
            Remote::Smb { password, .. } => Some(password@),
            Remote::WebDav { password, .. } => Some(password@),
            _ => None,
        }
    }

    /// The settings that creating the remote takes.
    pub open spec fn config_args_text(&self) -> Option<Seq<Seq<char>>> {
        match self.password_text() {
            Some(password) => self.config_args_with(password),
            None => self.config_args_with(Seq::empty()),
        }
    }

    /// Whether the tool has to be told of the remote before it is used.
    pub open spec fn needs_configuration_spec(&self) -> bool {
        !(self is Custom)
    }

    /// What a user is shown of the connection.
    pub open spec fn description_text(&self, other_label: Seq<char>) -> Option<Seq<char>> {
        match self {
            Remote::Ftp { host, port, username, .. } => Some(
                host_summary(username@, host@, *port as int),
            ),
            Remote::Smb { host, port, username, .. } => Some(
                host_summary(username@, host@, *port as int),
            ),
            Remote::WebDav { url, provider, .. } => Some(
                provider.label_text(other_label) + " - "@ + url@,
            ),
            _ => None,
        }
    }

    pub fn name(&self) -> (r: &str)
        ensures
            r@ == self.name_text(),
    {
        match self {
            Remote::Custom { name } => name.as_str(),
            _ => "ludusavi",
        }
    }

    pub fn slug(&self) -> (r: &'static str)
        ensures
            r@ == self.slug_text(),
    {
        match self {
            Remote::Custom { .. } => "",
            Remote::Box => "box",
            Remote::Dropbox => "dropbox",
            Remote::Ftp { .. } => "ftp",
            Remote::GoogleDrive => "drive",
            Remote::OneDrive => "onedrive",
            Remote::Smb { .. } => "smb",
            Remote::WebDav { .. } => "webdav",
        }
    }

    /// The password of a remote that has one.
    pub fn password(&self) -> (r: Option<&str>)
        ensures
            r is Some <==> self.password_text() is Some,
            r matches Some(p) ==> p@ == self.password_text()->0,
    {
        match self {
            Remote::Ftp { password, .. } => Some(password.as_str()),
            Remote::Smb { password, .. } => Some(password.as_str()),
            Remote::WebDav { password, .. } => Some(password.as_str()),
            _ => None,
        }
    }

    /// The settings for creating the remote, with `password` where the
    /// remote's own would stand. A remote without a password ignores it.
    pub fn config_args_with_password(&self, password: &str) -> (r: Option<Vec<String>>)
        ensures
            r is Some <==> self.config_args_with(password@) is Some,
            r matches Some(args) ==> args.deep_view() == self.config_args_with(password@)->0,
    {
        match self {
            Remote::Custom { .. } => None,
            Remote::Box => None,
            Remote::Dropbox => None,
            Remote::GoogleDrive => {
                let mut args: Vec<String> = Vec::new();
                args.push(String::from_str("scope=drive"));
                assert(args.deep_view() =~= seq!["scope=drive"@]);
                Some(args)
            },
            Remote::Ftp { host, port, username, .. } => {
                let mut args: Vec<String> = Vec::new();
                args.push(make_setting("host=", host.as_str()));
                let digits = decimal_i64(*port as i64);
                args.push(make_setting("port=", digits.as_str()));
                args.push(make_setting("user=", username.as_str()));
                args.push(make_setting("pass=", password));
                assert(args.deep_view() =~= self.config_args_with(password@)->0);
                Some(args)
            },
            Remote::OneDrive => {
                let mut args: Vec<String> = Vec::new();
                args.push(String::from_str("drive_type=personal"));
                args.push(String::from_str("access_scopes=Files.ReadWrite,offline_access"));
                assert(args.deep_view() =~= self.config_args_with(password@)->0);
                Some(args)
            },
            Remote::Smb { host, port, username, .. } => {
                let mut args: Vec<String> = Vec::new();
                args.push(make_setting("host=", host.as_str()));
                let digits = decimal_i64(*port as i64);
                args.push(make_setting("port=", digits.as_str()));
                args.push(make_setting("user=", username.as_str()));
                args.push(make_setting("pass=", password));
                assert(args.deep_view() =~= self.config_args_with(password@)->0);
                Some(args)
            },
            Remote::WebDav { url, username, provider, .. } => {
                let mut args: Vec<String> = Vec::new();
                args.push(make_setting("url=", url.as_str()));
                args.push(make_setting("user=", username.as_str()));
                args.push(make_setting("pass=", password));
                args.push(make_setting("vendor=", provider.slug()));
                assert(args.deep_view() =~= self.config_args_with(password@)->0);
                Some(args)
            },
        }
    }

    pub fn config_args(&self) -> (r: Option<Vec<String>>)
        ensures
            r is Some <==> self.config_args_text() is Some,
            r matches Some(args) ==> args.deep_view() == self.config_args_text()->0,
    {
        match self.password() {
            Some(password) => self.config_args_with_password(password),
            None => {
                proof {
                    assert(""@ =~= Seq::<char>::empty()) by {
                        reveal_strlit("");
                    }
                }
                self.config_args_with_password("")
            },
        }
    }

    pub fn needs_configuration(&self) -> (r: bool)
        ensures
            r == self.needs_configuration_spec(),
    {
        match self {
            Remote::Custom { .. } => false,
            Remote::Box
            | Remote::Dropbox
            | Remote::Ftp { .. }
            | Remote::GoogleDrive
            | Remote::OneDrive
            | Remote::Smb { .. }
            | Remote::WebDav { .. } => true,
        }
    }

    /// Sums the connection up for a user; `other_label` is the localised
    /// word for a WebDAV provider that is none of the known ones.
    pub fn description(&self, other_label: &str) -> (r: Option<String>)
        ensures
            r is Some <==> self.description_text(other_label@) is Some,
            r matches Some(text) ==> text@ == self.description_text(other_label@)->0,
    {
        match self {
            Remote::Ftp { host, port, username, .. } => Some(
                make_host_summary(username.as_str(), host.as_str(), *port),
            ),
            Remote::Smb { host, port, username, .. } => Some(
                make_host_summary(username.as_str(), host.as_str(), *port),
            ),
            Remote::WebDav { url, provider, .. } => {
                let mut text = provider.label(other_label);
                text.append(" - ");
                text.append(url.as_str());
                Some(text)
            },
            _ => None,
        }
    }
}

/// What a user picks when choosing a remote.
#[derive(Clone, Copy, Debug, PartialEq, Eq, Structural)]
pub enum RemoteChoice {
    Unset,
    Custom,
    Box,
    Dropbox,
    Ftp,
    GoogleDrive,
    OneDrive,
    Smb,
    WebDav,
}

impl RemoteChoice {
    /// The name shown to a user; the two labels are the localised words for
    /// "none" and "custom".
    pub open spec fn label_text(self, none_label: Seq<char>, custom_label: Seq<char>) -> Seq<char> {
        match self {
            RemoteChoice::Unset => none_label,
            RemoteChoice::Custom => custom_label,
            RemoteChoice::Box => "Box"@,
            RemoteChoice::Dropbox => "Dropbox"@,
            RemoteChoice::Ftp => "FTP"@,
            RemoteChoice::GoogleDrive => "Google Drive"@,
            RemoteChoice::OneDrive => "OneDrive"@,
            RemoteChoice::Smb => "SMB"@,
            RemoteChoice::WebDav => "WebDAV"@,
        }
    }

    /// The choice that a configured remote, or the lack of one, stands for.
    pub open spec fn of_spec(remote: Option<&Remote>) -> RemoteChoice {
        match remote {
            None => RemoteChoice::Unset,
            Some(Remote::Custom { .. }) => RemoteChoice::Custom,
            Some(Remote::Box) => RemoteChoice::Box,
            Some(Remote::Dropbox) => RemoteChoice::Dropbox,
            Some(Remote::Ftp { .. }) => RemoteChoice::Ftp,
            Some(Remote::GoogleDrive) => RemoteChoice::GoogleDrive,
            Some(Remote::OneDrive) => RemoteChoice::OneDrive,
            Some(Remote::Smb { .. }) => RemoteChoice::Smb,
            Some(Remote::WebDav { .. }) => RemoteChoice::WebDav,
        }
    }

    /// Every choice, in the order in which they are offered.
    pub fn all() -> (r: Vec<RemoteChoice>)
        ensures
            r@ == seq![
                RemoteChoice::Unset,
                RemoteChoice::Box,
                RemoteChoice::Dropbox,
                RemoteChoice::GoogleDrive,
                RemoteChoice::OneDrive,
                RemoteChoice::Ftp,
                RemoteChoice::Smb,
                RemoteChoice::WebDav,
                RemoteChoice::Custom,
            ],
    {
        let mut r = Vec::new();
        r.push(RemoteChoice::Unset);
        r.push(RemoteChoice::Box);
        r.push(RemoteChoice::Dropbox);
        r.push(RemoteChoice::GoogleDrive);
        r.push(RemoteChoice::OneDrive);
        r.push(RemoteChoice::Ftp);
        r.push(RemoteChoice::Smb);
        r.push(RemoteChoice::WebDav);
        r.push(RemoteChoice::Custom);
        assert(r@ =~= seq![
            RemoteChoice::Unset,
            RemoteChoice::Box,
            RemoteChoice::Dropbox,
            RemoteChoice::GoogleDrive,
            RemoteChoice::OneDrive,
            RemoteChoice::Ftp,
            RemoteChoice::Smb,
            RemoteChoice::WebDav,
            RemoteChoice::Custom,
        ]);
        r
    }

    pub fn label(&self, none_label: &str, custom_label: &str) -> (r: String)
        ensures
            r@ == self.label_text(none_label@, custom_label@),
    {
        match self {
            RemoteChoice::Unset => String::from_str(none_label),
            RemoteChoice::Custom => String::from_str(custom_label),
            RemoteChoice::Box => String::from_str("Box"),
            RemoteChoice::Dropbox => String::from_str("Dropbox"),
            RemoteChoice::Ftp => String::from_str("FTP"),
            RemoteChoice::GoogleDrive => String::from_str("Google Drive"),
            RemoteChoice::OneDrive => String::from_str("OneDrive"),
            RemoteChoice::Smb => String::from_str("SMB"),
            RemoteChoice::WebDav => String::from_str("WebDAV"),
        }
    }
}

impl<'a> From<Option<&'a Remote>> for RemoteChoice {
    fn from(value: Option<&'a Remote>) -> (r: RemoteChoice) {
        match value {
            None => RemoteChoice::Unset,
            Some(Remote::Custom { .. }) => RemoteChoice::Custom,
            Some(Remote::Box) => RemoteChoice::Box,
            Some(Remote::Dropbox) => RemoteChoice::Dropbox,
            Some(Remote::Ftp { .. }) => RemoteChoice::Ftp,
            Some(Remote::GoogleDrive) => RemoteChoice::GoogleDrive,
            Some(Remote::OneDrive) => RemoteChoice::OneDrive,
            Some(Remote::Smb { .. }) => RemoteChoice::Smb,
            Some(Remote::WebDav { .. }) => RemoteChoice::WebDav,
        }
    }
}

impl<'a> vstd::std_specs::convert::FromSpecImpl<Option<&'a Remote>> for RemoteChoice {
    open spec fn obeys_from_spec() -> bool {
        true
    }

    open spec fn from_spec(value: Option<&'a Remote>) -> RemoteChoice {
        RemoteChoice::of_spec(value)
    }
}

impl Remote {
    /// Whether `self` is the remote that a fresh choice of `choice` starts
    /// from: the usual port, and every text empty but a custom remote's name.
    pub open spec fn is_default_of(&self, choice: RemoteChoice) -> bool {
        match choice {
            RemoteChoice::Unset => false,
            RemoteChoice::Custom => self matches Remote::Custom { name } && name@ == "ludusavi"@,
            RemoteChoice::Box => self is Box,
            RemoteChoice::Dropbox => self is Dropbox,
            RemoteChoice::GoogleDrive => self is GoogleDrive,
            RemoteChoice::OneDrive => self is OneDrive,
            RemoteChoice::Ftp => self matches Remote::Ftp { host, port, username, password }
                && host@.len() == 0 && port == 21 && username@.len() == 0 && password@.len() == 0,
            RemoteChoice::Smb => self matches Remote::Smb { host, port, username, password }
                && host@.len() == 0 && port == 445 && username@.len() == 0 && password@.len() == 0,
            RemoteChoice::WebDav => self matches Remote::WebDav {
                url,
                username,
                password,
                provider,
            } && url@.len() == 0 && username@.len() == 0 && password@.len() == 0 && provider
                == WebDavProvider::Other,
        }
    }

    /// The remote that a fresh choice starts from; none for the choice of
    /// having no remote.
    pub fn from_choice(choice: RemoteChoice) -> (r: Result<Remote, ()>)
        ensures
            r is Err <==> choice == RemoteChoice::Unset,
            r matches Ok(remote) ==> remote.is_default_of(choice) && RemoteChoice::of_spec(
                Some(&remote),
            ) == choice,
    {
        match choice {
            RemoteChoice::Unset => Err(()),
            RemoteChoice::Custom => Ok(Remote::Custom { name: String::from_str("ludusavi") }),
            RemoteChoice::Box => Ok(Remote::Box),
            RemoteChoice::Dropbox => Ok(Remote::Dropbox),
            RemoteChoice::Ftp => Ok(
                Remote::Ftp {
                    host: String::new(),
                    port: 21,
                    username: String::new(),
                    password: String::new(),
                },
            ),
            RemoteChoice::GoogleDrive => Ok(Remote::GoogleDrive),
            RemoteChoice::OneDrive => Ok(Remote::OneDrive),
            RemoteChoice::Smb => Ok(
                Remote::Smb {
                    host: String::new(),
                    port: 445,
                    username: String::new(),
                    password: String::new(),
                },
            ),
            RemoteChoice::WebDav => Ok(
                Remote::WebDav {
                    url: String::new(),
                    username: String::new(),
                    password: String::new(),
                    provider: WebDavProvider::Other,
                },
            ),
        }
    }
}

/// Whether a command line may be written to a log as it is.
#[derive(Clone, Copy, Debug, PartialEq, Eq, Structural)]
pub enum Privacy {
    Public,
    Private,
}

/// Whether a synchronisation changes anything or only reports.
#[derive(Clone, Copy, Debug, PartialEq, Eq, Structural)]
pub enum Finality {
    Preview,
    Final,
}

impl Finality {
    /// Whether nothing is to be changed.
    pub open spec fn preview_spec(self) -> bool {
        self == Finality::Preview
    }

    pub fn preview(&self) -> (r: bool)
        ensures
            r == self.preview_spec(),
    {
        match self {
            Finality::Preview => true,
            Finality::Final => false,
        }
    }
}

/// Which way files travel.
#[derive(Clone, Copy, Debug, PartialEq, Eq, Structural)]
pub enum SyncDirection {
    Upload,
    Download,
}

/// The synchronisation tool as the user has configured it: where it is, and
/// the arguments that go before all others on each of its command lines.
#[derive(Clone, Debug, PartialEq, Eq)]
pub struct App {
    pub path: String,
    pub arguments: String,
}

/// A command line for the caller to run.
#[derive(Clone, Debug, PartialEq, Eq)]
pub struct Invocation {
    pub program: String,
    pub args: Vec<String>,
    /// The exit codes that count as success.
    pub success: Vec<i32>,
    pub privacy: Privacy,
}

/// The words into which `shlex::split` parts a line, as a shell would.
pub uninterp spec fn shell_words(line: Seq<char>) -> Option<Seq<Seq<char>>>;

/// Calls `shlex::split`. The crate reads the line as a POSIX shell reads a
/// command line, with quotes, backslashes and comments, and gives nothing for
/// a line that ends inside a quotation or after a backslash. The contract
/// only names that result.
#[verifier::external_body]
fn split_words(line: &str) -> (r: Option<Vec<String>>)
    ensures
        r is Some <==> shell_words(line@) is Some,
        r matches Some(words) ==> words.deep_view() == shell_words(line@)->0,
{
    shlex::split(line)
}

/// `args` behind the user's own arguments, where there are any.
pub open spec fn with_extra(extra: Option<Seq<Seq<char>>>, args: Seq<Seq<char>>) -> Seq<
    Seq<char>,
> {
    match extra {
        Some(extra) => extra + args,
        None => args,
    }
}

/// Puts the words of the user's own arguments before `args`.
pub fn with_extra_args(extra: Option<Vec<String>>, args: &Vec<String>) -> (r: Vec<String>)
    ensures
        r.deep_view() == with_extra(
            match extra {
                Some(e) => Some(e.deep_view()),
                None => None,
            },
            args.deep_view(),
        ),
{
    let mut collected: Vec<String> = match extra {
        Some(e) => e,
        None => Vec::new(),
    };
    let ghost start = collected.deep_view();
    let mut i: usize = 0;
    while i < args.len()
        invariant
            i <= args.len(),
            collected.deep_view() == start + args.deep_view().subrange(0, i as int),
        decreases args.len() - i,
    {
        let ghost before = collected;
        let arg = args[i].clone();
        collected.push(arg);
        proof {
            lemma_push_text(before, collected, arg);
            assert(collected.deep_view() =~= start + args.deep_view().subrange(0, i + 1));
        }
        i += 1;
    }
    assert(args.deep_view().subrange(0, i as int) =~= args.deep_view());
    assert(extra is None ==> start + args.deep_view() =~= args.deep_view());
    collected
}

/// What the user's own arguments contribute to a command line.
pub open spec fn extra_words(arguments: Seq<char>) -> Option<Seq<Seq<char>>> {
    if arguments.len() == 0 {
        None
    } else {
        shell_words(arguments)
    }
}

/// The rule that makes the tool take in a whole game folder.
pub open spec fn include_rule(game_dir: Seq<char>) -> Seq<char> {
    "--include=/"@ + game_dir + "/**"@
}

/// A place on a remote, as the tool writes it.
pub open spec fn remote_target(name: Seq<char>, path: Seq<char>) -> Seq<char> {
    name + seq![':'] + path
}

/// The arguments of a synchronisation, without the user's own.
pub open spec fn sync_args(
    local: Seq<char>,
    target: Seq<char>,
    direction: SyncDirection,
    finality: Finality,
    game_dirs: Seq<Seq<char>>,
) -> Seq<Seq<char>> {
    seq!["sync"@, "-v"@, "--use-json-log"@, "--stats=100ms"@] + (if finality.preview_spec() {
        seq!["--dry-run"@]
    } else {
        Seq::empty()
    }) + game_dirs.map_values(|d: Seq<char>| include_rule(d)) + (match direction {
        SyncDirection::Upload => seq![local, target],
        SyncDirection::Download => seq![target, local],
    })
}

/// The arguments that create `remote`, with `password` for its own.
pub open spec fn create_args(remote: &Remote, password: Seq<char>) -> Seq<Seq<char>> {
    seq!["config"@, "create"@, remote.name_text(), remote.slug_text()] + (match remote.config_args_with(
        password,
    ) {
        Some(args) => args,
        None => Seq::empty(),
    })
}

/// What has to happen next for a remote to be known to the tool.
#[derive(Clone, Debug, PartialEq, Eq)]
pub enum ConfigureStep {
    /// The remote is managed outside: there is nothing to do.
    Done,
    /// The remote holds a password. Run this; it prints the obscured form
    /// of the password, which `create_remote` takes.
    Obscure(Invocation),
    /// Run this; it creates the remote.
    Create(Invocation),
}

/// The synchronisation tool together with the remote it is to work on.
pub struct Rclone {
    app: App,
    remote: Remote,
}

impl Rclone {
    /// The tool as the user has configured it.
    pub closed spec fn app(&self) -> App {
        self.app
    }

    /// The remote that the tool is to work on.
    pub closed spec fn remote(&self) -> Remote {
        self.remote
    }

    pub fn new(app: App, remote: Remote) -> (r: Self)
        ensures
            r.app() == app,
            r.remote() == remote,
    {
        Self { app, remote }
    }

    /// Whether `invocation` runs the tool with `args` behind the user's own
    /// arguments, expects exit code 0, and is logged as `privacy` says.
    pub open spec fn runs(&self, invocation: Invocation, args: Seq<Seq<char>>, privacy: Privacy) -> bool {
        &&& invocation.program@ == self.app().path@
        &&& invocation.args.deep_view() == with_extra(extra_words(self.app().arguments@), args)
        &&& invocation.success@ == seq![0i32]
        &&& invocation.privacy == privacy
    }

    /// A path on the remote, as the tool writes it.
    pub fn path(&self, path: &str) -> (r: String)
        ensures
            r@ == remote_target(self.remote().name_text(), path@),
    {
        proof {
            reveal_strlit(":");
            assert(":"@ =~= seq![':']);
        }
        let mut r = String::from_str(self.remote.name());
        r.append(":");
        r.append(path);
        r
    }

    /// `args` behind the user's own arguments. Where the user's arguments
    /// cannot be read as a shell would read them, they are left out.
    pub fn args(&self, args: &Vec<String>) -> (r: Vec<String>)
        ensures
            r.deep_view() == with_extra(extra_words(self.app().arguments@), args.deep_view()),
    {
        let extra = if self.app.arguments.as_str().unicode_len() != 0 {
            split_words(self.app.arguments.as_str())
        } else {
            None
        };
        with_extra_args(extra, args)
    }

    /// The command line that runs the tool with `args`.
    pub fn invocation(&self, args: &Vec<String>, privacy: Privacy) -> (r: Invocation)
        ensures
            self.runs(r, args.deep_view(), privacy),
    {
        let mut success: Vec<i32> = Vec::new();
        success.push(0);
        Invocation { program: self.app.path.clone(), args: self.args(args), success, privacy }
    }

    /// The command line that obscures a credential. It is never public.
    pub fn obscure(&self, credential: &str) -> (r: Invocation)
        ensures
            self.runs(r, seq!["obscure"@, credential@], Privacy::Private),
    {
        let mut args: Vec<String> = Vec::new();
        args.push(String::from_str("obscure"));
        args.push(String::from_str(credential));
        assert(args.deep_view() =~= seq!["obscure"@, credential@]);
        self.invocation(&args, Privacy::Private)
    }

    /// The first step of making the remote known to the tool.
    pub fn configure_remote(&self) -> (r: ConfigureStep)
        ensures
            !self.remote().needs_configuration_spec() ==> r is Done,
            self.remote().needs_configuration_spec() ==> match self.remote().password_text() {
                Some(password) => r matches ConfigureStep::Obscure(invocation) && self.runs(
                    invocation,
                    seq!["obscure"@, password],
                    Privacy::Private,
                ),
                None => r matches ConfigureStep::Create(invocation) && self.runs(
                    invocation,
                    create_args(&self.remote(), Seq::empty()),
                    Privacy::Public,
                ),
            },
    {
        if !self.remote.needs_configuration() {
            return ConfigureStep::Done;
        }
        match self.remote.password() {
            Some(password) => ConfigureStep::Obscure(self.obscure(password)),
            None => {
                proof {
                    reveal_strlit("");
                    assert(""@ =~= Seq::<char>::empty());
                }
                ConfigureStep::Create(self.create_remote(""))
            },
        }
    }

    /// The command line that creates the remote. For a remote with a
    /// password, `obscured` is what the step before printed, and the command
    /// line is private; for one without, `obscured` is not used.
    pub fn create_remote(&self, obscured: &str) -> (r: Invocation)
        ensures
            self.runs(
                r,
                create_args(&self.remote(), obscured@),
                if self.remote().password_text() is Some {
                    Privacy::Private
                } else {
                    Privacy::Public
                },
            ),
    {
        let privacy = match self.remote.password() {
            Some(_) => Privacy::Private,
            None => Privacy::Public,
        };
        let mut args: Vec<String> = Vec::new();
        args.push(String::from_str("config"));
        args.push(String::from_str("create"));
        args.push(String::from_str(self.remote.name()));
        args.push(String::from_str(self.remote.slug()));
        assert(args.deep_view() =~= seq![
            "config"@,
            "create"@,
            self.remote.name_text(),
            self.remote.slug_text(),
        ]);
        let args = match self.remote.config_args_with_password(obscured) {
            Some(settings) => with_extra_args(Some(args), &settings),
            None => {
                assert(args.deep_view() + Seq::<Seq<char>>::empty() =~= args.deep_view());
                args
            },
        };
        self.invocation(&args, privacy)
    }

    /// The command line of a synchronisation between the local folder and
    /// `remote_path` on the remote, limited to `game_dirs` where any are given.
    pub fn sync(
        &self,
        local: &str,
        remote_path: &str,
        direction: SyncDirection,
        finality: Finality,
        game_dirs: &Vec<String>,
    ) -> (r: Invocation)
        ensures
            self.runs(
                r,
                sync_args(
                    local@,
                    remote_target(self.remote().name_text(), remote_path@),
                    direction,
                    finality,
                    game_dirs.deep_view(),
                ),
                Privacy::Public,
            ),
    {
        let mut args: Vec<String> = Vec::new();
        args.push(String::from_str("sync"));
        args.push(String::from_str("-v"));
        args.push(String::from_str("--use-json-log"));
        args.push(String::from_str("--stats=100ms"));
        let ghost head = seq!["sync"@, "-v"@, "--use-json-log"@, "--stats=100ms"@];
        assert(args.deep_view() =~= head);
        if finality.preview() {
            args.push(String::from_str("--dry-run"));
        }
        let ghost head = head + (if finality.preview_spec() {
            seq!["--dry-run"@]
        } else {
            Seq::empty()
        });
        assert(args.deep_view() =~= head);
        let ghost dirs = game_dirs.deep_view();
        let ghost rules = dirs.map_values(|d: Seq<char>| include_rule(d));
        let mut i: usize = 0;
        while i < game_dirs.len()
            invariant
                i <= game_dirs.len(),
                dirs == game_dirs.deep_view(),
                rules == dirs.map_values(|d: Seq<char>| include_rule(d)),
                args.deep_view() == head + rules.subrange(0, i as int),
            decreases game_dirs.len() - i,
        {
            let mut rule = String::from_str("--include=/");
            rule.append(game_dirs[i].as_str());
            rule.append("/**");
            assert(rule@ == rules[i as int]);
            let ghost before = args;
            let ghost pushed = rule;
            args.push(rule);
            proof {
                lemma_push_text(before, args, pushed);
                assert(args.deep_view() =~= head + rules.subrange(0, i + 1));
            }
            i += 1;
        }
        assert(rules.subrange(0, i as int) =~= rules);
        let target = self.path(remote_path);
        let ghost before = args.deep_view();
        match direction {
            SyncDirection::Upload => {
                args.push(String::from_str(local));
                args.push(target);
                assert(args.deep_view() =~= before + seq![
                    local@,
                    remote_target(self.remote().name_text(), remote_path@),
                ]);
            },
            SyncDirection::Download => {
                args.push(target);
                args.push(String::from_str(local));
                assert(args.deep_view() =~= before + seq![
                    remote_target(self.remote().name_text(), remote_path@),
                    local@,
                ]);
            },
        }
        self.invocation(&args, Privacy::Public)
    }
}

} // verus!
