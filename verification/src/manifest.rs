//! The manifest: which files and registry keys hold the saves of which
//! game, and how manifests of several sources become one.

use vstd::prelude::*;
use crate::dict::Dict;
use crate::ranked::{RankSet, Ranked};
use crate::text::{str_eq, text_of};

verus! {

/// An operating system.
#[derive(Clone, Copy, Debug, PartialEq, Eq, PartialOrd, Ord, Hash, Structural)]
pub enum Os {
    Windows,
    Linux,
    Mac,
    Other,
}

impl Os {
    /// Whether two file names that differ only in case name two files.
    pub open spec fn case_sensitive(self) -> bool {
        self == Os::Linux || self == Os::Other
    }

    pub fn is_case_sensitive(&self) -> (r: bool)
        ensures
            r == self.case_sensitive(),
    {
        match self {
            Os::Windows | Os::Mac => false,
            Os::Linux | Os::Other => true,
        }
    }

    /// The place of the operating system in the order of all.
    pub open spec fn index(self) -> int {
        match self {
            Os::Windows => 0,
            Os::Linux => 1,
            Os::Mac => 2,
            Os::Other => 3,
        }
    }

    fn index_of(&self) -> (r: u64)
        ensures
            r == self.index(),
    {
        match self {
            Os::Windows => 0,
            Os::Linux => 1,
            Os::Mac => 2,
            Os::Other => 3,
        }
    }
}

/// The text in lower case, as `str::to_lowercase` gives it.
pub uninterp spec fn lowercase(text: Seq<char>) -> Seq<char>;

/// Calls `str::to_lowercase`, which follows the case mappings of Unicode.
/// The contract only names the result.
#[verifier::external_body]
fn to_lowercase(text: &str) -> (r: String)
    ensures
        r@ == lowercase(text@),
{
    text.to_lowercase()
}

/// The operating system that a launcher means by a name in lower case.
pub open spec fn os_of_platform(name: Seq<char>) -> Os {
    if name == "windows"@ {
        Os::Windows
    } else if name == "linux"@ {
        Os::Linux
    } else if name == "mac"@ || name == "macos"@ {
        Os::Mac
    } else {
        Os::Other
    }
}

impl Os {
    /// Reads an operating system from the name, in lower case, that a
    /// launcher gives to a platform.
    pub fn from_platform(name: &str) -> (r: Os)
        ensures
            r == os_of_platform(name@),
    {
        if str_eq(name, "windows") {
            Os::Windows
        } else if str_eq(name, "linux") {
            Os::Linux
        } else if str_eq(name, "mac") || str_eq(name, "macos") {
            Os::Mac
        } else {
            Os::Other
        }
    }
}

impl<'a> From<&'a str> for Os {
    /// Reads an operating system from the name that a launcher gives to a
    /// platform, in whatever case.
    fn from(value: &'a str) -> (r: Os) {
        let lower = to_lowercase(value);
        Os::from_platform(lower.as_str())
    }
}

impl<'a> vstd::std_specs::convert::FromSpecImpl<&'a str> for Os {
    open spec fn obeys_from_spec() -> bool {
        true
    }

    open spec fn from_spec(value: &'a str) -> Os {
        os_of_platform(lowercase(value@))
    }
}

impl Default for Os {
    fn default() -> (r: Self)
        ensures
            r == Os::Other,
    {
        Os::Other
    }
}

/// A store or launcher that a game was installed by.
#[derive(Clone, Copy, Debug, PartialEq, Eq, PartialOrd, Ord, Hash, Structural)]
pub enum Store {
    Ea,
    Epic,
    Gog,
    GogGalaxy,
    Heroic,
    Legendary,
    Lutris,
    Microsoft,
    Origin,
    Prime,
    Steam,
    Uplay,
    OtherHome,
    OtherWine,
    OtherWindows,
    OtherLinux,
    OtherMac,
    Other,
}

impl Store {
    /// The place of the store in the order of all.
    pub open spec fn index(self) -> int {
        match self {
            Store::Ea => 0,
            Store::Epic => 1,
            Store::Gog => 2,
            Store::GogGalaxy => 3,
            Store::Heroic => 4,
            Store::Legendary => 5,
            Store::Lutris => 6,
            Store::Microsoft => 7,
            Store::Origin => 8,
            Store::Prime => 9,
            Store::Steam => 10,
            Store::Uplay => 11,
            Store::OtherHome => 12,
            Store::OtherWine => 13,
            Store::OtherWindows => 14,
            Store::OtherLinux => 15,
            Store::OtherMac => 16,
            Store::Other => 17,
        }
    }

    fn index_of(&self) -> (r: u64)
        ensures
            r == self.index(),
    {
        match self {
            Store::Ea => 0,
            Store::Epic => 1,
            Store::Gog => 2,
            Store::GogGalaxy => 3,
            Store::Heroic => 4,
            Store::Legendary => 5,
            Store::Lutris => 6,
            Store::Microsoft => 7,
            Store::Origin => 8,
            Store::Prime => 9,
            Store::Steam => 10,
            Store::Uplay => 11,
            Store::OtherHome => 12,
            Store::OtherWine => 13,
            Store::OtherWindows => 14,
            Store::OtherLinux => 15,
            Store::OtherMac => 16,
            Store::Other => 17,
        }
    }

    /// Every store, in the order in which they are listed.
    pub fn all() -> (r: Vec<Store>)
        ensures
            r.len() == 18,
            forall|i: int| 0 <= i < 18 ==> (#[trigger] r[i]).index() == i,
    {
        let mut r = Vec::new();
        r.push(Store::Ea);
        r.push(Store::Epic);
        r.push(Store::Gog);
        r.push(Store::GogGalaxy);
        r.push(Store::Heroic);
        r.push(Store::Legendary);
        r.push(Store::Lutris);
        r.push(Store::Microsoft);
        r.push(Store::Origin);
        r.push(Store::Prime);
        r.push(Store::Steam);
        r.push(Store::Uplay);
        r.push(Store::OtherHome);
        r.push(Store::OtherWine);
        r.push(Store::OtherWindows);
        r.push(Store::OtherLinux);
        r.push(Store::OtherMac);
        r.push(Store::Other);
        r
    }
}

impl Default for Store {
    fn default() -> (r: Self)
        ensures
            r == Store::Other,
    {
        Store::Other
    }
}

/// What a file or a registry key is for.
#[derive(Clone, Copy, Debug, PartialEq, Eq, PartialOrd, Ord, Hash, Structural)]
pub enum Tag {
    Save,
    Config,
    Other,
}

impl Default for Tag {
    fn default() -> (r: Self)
        ensures
            r == Tag::Other,
    {
        Tag::Other
    }
}

impl Ranked for Tag {
    open spec fn rank(self) -> int {
        match self {
            Tag::Save => 0,
            Tag::Config => 1,
            Tag::Other => 2,
        }
    }

    fn rank_of(&self) -> (r: u64) {
        match self {
            Tag::Save => 0,
            Tag::Config => 1,
            Tag::Other => 2,
        }
    }

    proof fn lemma_rank_tells_apart(a: Self, b: Self) {
    }
}

/// The rank of an optional operating system: none comes first.
pub open spec fn os_rank(os: Option<Os>) -> int {
    match os {
        None => 0,
        Some(os) => 1 + os.index(),
    }
}

/// The rank of an optional store: none comes first.
pub open spec fn store_rank(store: Option<Store>) -> int {
    match store {
        None => 0,
        Some(store) => 1 + store.index(),
    }
}

fn store_rank_of(store: &Option<Store>) -> (r: u64)
    ensures
        r == store_rank(*store),
        r < 32,
{
    match store {
        None => 0,
        Some(store) => 1 + store.index_of(),
    }
}

/// A condition on a file: that the game runs on `os`, was installed by
/// `store`, or both.
#[derive(Clone, Copy, Debug, PartialEq, Eq, PartialOrd, Ord, Hash)]
pub struct GameFileConstraint {
    pub os: Option<Os>,
    pub store: Option<Store>,
}

impl Default for GameFileConstraint {
    fn default() -> (r: Self)
        ensures
            r == (GameFileConstraint { os: None, store: None }),
    {
        GameFileConstraint { os: None, store: None }
    }
}

impl Ranked for GameFileConstraint {
    open spec fn rank(self) -> int {
        os_rank(self.os) * 32 + store_rank(self.store)
    }

    fn rank_of(&self) -> (r: u64) {
        let os: u64 = match &self.os {
            None => 0,
            Some(os) => 1 + os.index_of(),
        };
        os * 32 + store_rank_of(&self.store)
    }

    proof fn lemma_rank_tells_apart(a: Self, b: Self) {
        assert(os_rank(a.os) == os_rank(b.os));
        assert(store_rank(a.store) == store_rank(b.store));
    }
}

/// A condition on a registry key: that the game was installed by `store`.
#[derive(Clone, Copy, Debug, PartialEq, Eq, PartialOrd, Ord, Hash)]
pub struct GameRegistryConstraint {
    pub store: Option<Store>,
}

impl Default for GameRegistryConstraint {
    fn default() -> (r: Self)
        ensures
            r == (GameRegistryConstraint { store: None }),
    {
        GameRegistryConstraint { store: None }
    }
}

impl Ranked for GameRegistryConstraint {
    open spec fn rank(self) -> int {
        store_rank(self.store)
    }

    fn rank_of(&self) -> (r: u64) {
        store_rank_of(&self.store)
    }

    proof fn lemma_rank_tells_apart(a: Self, b: Self) {
    }
}

/// What a manifest says of one path.
#[derive(Clone, Debug, PartialEq, Eq)]
pub struct GameFileEntry {
    pub tags: RankSet<Tag>,
    /// The conditions of which one has to hold; none means always.
    pub when: RankSet<GameFileConstraint>,
}

/// What a manifest says of one path, as a mathematical value.
pub struct FileEntryView {
    pub tags: Set<Tag>,
    pub when: Set<GameFileConstraint>,
}

impl View for GameFileEntry {
    type V = FileEntryView;

    open spec fn view(&self) -> FileEntryView {
        FileEntryView { tags: self.tags@, when: self.when@ }
    }
}

impl FileEntryView {
    /// The entry of a path that is kept always and has no tag.
    pub open spec fn unconditional() -> FileEntryView {
        FileEntryView { tags: Set::empty(), when: Set::empty() }
    }
}

impl Default for GameFileEntry {
    fn default() -> (r: Self)
        ensures
            r@ == FileEntryView::unconditional(),
    {
        GameFileEntry { tags: RankSet::new(), when: RankSet::new() }
    }
}

/// What a manifest says of one folder that a game may be installed in.
#[derive(Clone, Copy, Debug, PartialEq, Eq)]
pub struct GameInstallDirEntry {}

impl View for GameInstallDirEntry {
    type V = ();

    open spec fn view(&self) -> () {
        ()
    }
}

impl Default for GameInstallDirEntry {
    fn default() -> (r: Self) {
        GameInstallDirEntry {  }
    }
}

/// What a manifest says of one registry key.
#[derive(Clone, Debug, PartialEq, Eq)]
pub struct GameRegistryEntry {
    pub tags: RankSet<Tag>,
    /// The conditions of which one has to hold; none means always.
    pub when: RankSet<GameRegistryConstraint>,
}

/// What a manifest says of one registry key, as a mathematical value.
pub struct RegistryEntryView {
    pub tags: Set<Tag>,
    pub when: Set<GameRegistryConstraint>,
}

impl View for GameRegistryEntry {
    type V = RegistryEntryView;

    open spec fn view(&self) -> RegistryEntryView {
        RegistryEntryView { tags: self.tags@, when: self.when@ }
    }
}

impl RegistryEntryView {
    /// The entry of a key that is kept always and has no tag.
    pub open spec fn unconditional() -> RegistryEntryView {
        RegistryEntryView { tags: Set::empty(), when: Set::empty() }
    }
}

impl Default for GameRegistryEntry {
    fn default() -> (r: Self)
        ensures
            r@ == RegistryEntryView::unconditional(),
    {
        GameRegistryEntry { tags: RankSet::new(), when: RankSet::new() }
    }
}

/// What Steam knows a game by.
#[derive(Clone, Copy, Debug, PartialEq, Eq)]
pub struct SteamMetadata {
    pub id: Option<u32>,
}

impl SteamMetadata {
    pub fn is_empty(&self) -> (r: bool)
        ensures
            r == (self.id is None),
    {
        self.id.is_none()
    }
}

impl Default for SteamMetadata {
    fn default() -> (r: Self)
        ensures
            r.id is None,
    {
        SteamMetadata { id: None }
    }
}

/// What GOG knows a game by.
#[derive(Clone, Copy, Debug, PartialEq, Eq)]
pub struct GogMetadata {
    pub id: Option<u64>,
}

impl GogMetadata {
    pub fn is_empty(&self) -> (r: bool)
        ensures
            r == (self.id is None),
    {
        self.id.is_none()
    }
}

impl Default for GogMetadata {
    fn default() -> (r: Self)
        ensures
            r.id is None,
    {
        GogMetadata { id: None }
    }
}

/// What other stores know a game by, and further ids at Steam and GOG.
#[derive(Clone, Debug, PartialEq, Eq)]
pub struct IdMetadata {
    pub flatpak: Option<String>,
    pub gog_extra: RankSet<u64>,
    pub lutris: Option<String>,
    pub steam_extra: RankSet<u32>,
}

/// The ids of a game, as a mathematical value.
pub struct IdView {
    pub flatpak: Option<Seq<char>>,
    pub gog_extra: Set<u64>,
    pub lutris: Option<Seq<char>>,
    pub steam_extra: Set<u32>,
}

impl View for IdMetadata {
    type V = IdView;

    open spec fn view(&self) -> IdView {
        IdView {
            flatpak: text_of(self.flatpak),
            gog_extra: self.gog_extra@,
            lutris: text_of(self.lutris),
            steam_extra: self.steam_extra@,
        }
    }
}

impl IdView {
    /// No id at all.
    pub open spec fn empty() -> IdView {
        IdView { flatpak: None, gog_extra: Set::empty(), lutris: None, steam_extra: Set::empty() }
    }

    pub open spec fn is_empty(self) -> bool {
        self == IdView::empty()
    }
}

impl IdMetadata {
    pub fn is_empty(&self) -> (r: bool)
        ensures
            r == self@.is_empty(),
    {
        self.flatpak.is_none() && self.gog_extra.is_empty() && self.lutris.is_none()
            && self.steam_extra.is_empty()
    }
}

impl Default for IdMetadata {
    fn default() -> (r: Self)
        ensures
            r@ == IdView::empty(),
    {
        IdMetadata {
            flatpak: None,
            gog_extra: RankSet::new(),
            lutris: None,
            steam_extra: RankSet::new(),
        }
    }
}

/// Which stores keep the saves of a game in their own cloud.
#[derive(Clone, Copy, Debug, PartialEq, Eq)]
pub struct CloudMetadata {
    pub epic: bool,
    pub gog: bool,
    pub origin: bool,
    pub steam: bool,
    pub uplay: bool,
}

impl CloudMetadata {
    /// No store keeps the saves.
    pub open spec fn none() -> CloudMetadata {
        CloudMetadata { epic: false, gog: false, origin: false, steam: false, uplay: false }
    }

    pub fn is_empty(&self) -> (r: bool)
        ensures
            r == (*self == CloudMetadata::none()),
    {
        !self.epic && !self.gog && !self.origin && !self.steam && !self.uplay
    }
}

impl Default for CloudMetadata {
    fn default() -> (r: Self)
        ensures
            r == CloudMetadata::none(),
    {
        CloudMetadata { epic: false, gog: false, origin: false, steam: false, uplay: false }
    }
}

/// What a manifest says of one game.
#[derive(Clone, Debug, PartialEq, Eq)]
pub struct Game {
    /// The title that this one is another name for.
    pub alias: Option<String>,
    pub files: Dict<GameFileEntry>,
    pub install_dir: Dict<GameInstallDirEntry>,
    pub registry: Dict<GameRegistryEntry>,
    pub steam: SteamMetadata,
    pub gog: GogMetadata,
    pub id: IdMetadata,
    pub cloud: CloudMetadata,
}

/// What a manifest says of one game, as a mathematical value.
pub struct GameView {
    pub alias: Option<Seq<char>>,
    pub files: Map<Seq<char>, FileEntryView>,
    pub install_dir: Set<Seq<char>>,
    pub registry: Map<Seq<char>, RegistryEntryView>,
    pub steam: SteamMetadata,
    pub gog: GogMetadata,
    pub id: IdView,
    pub cloud: CloudMetadata,
}

impl View for Game {
    type V = GameView;

    open spec fn view(&self) -> GameView {
        GameView {
            alias: text_of(self.alias),
            files: self.files@,
            install_dir: self.install_dir@.dom(),
            registry: self.registry@,
            steam: self.steam,
            gog: self.gog,
            id: self.id@,
            cloud: self.cloud,
        }
    }
}

impl GameView {
    /// A game of which nothing is known.
    pub open spec fn empty() -> GameView {
        GameView {
            alias: None,
            files: Map::empty(),
            install_dir: Set::empty(),
            registry: Map::empty(),
            steam: SteamMetadata { id: None },
            gog: GogMetadata { id: None },
            id: IdView::empty(),
            cloud: CloudMetadata::none(),
        }
    }

    /// Whether the game can be looked for: it is no other name of a game,
    /// and a path, a registry key or an id of it is known.
    pub open spec fn processable(self) -> bool {
        self.alias is None && (self.files.dom().len() > 0 || self.registry.dom().len() > 0
            || self.steam.id is Some || self.gog.id is Some || !self.id.is_empty())
    }
}

impl Default for Game {
    fn default() -> (r: Self)
        ensures
            r@ == GameView::empty(),
    {
        let r = Game {
            alias: None,
            files: Dict::new(),
            install_dir: Dict::new(),
            registry: Dict::new(),
            steam: SteamMetadata { id: None },
            gog: GogMetadata { id: None },
            id: IdMetadata::default(),
            cloud: CloudMetadata::default(),
        };
        assert(r.install_dir@.dom() =~= Set::<Seq<char>>::empty());
        r
    }
}

/// The games of a manifest by their titles.
#[derive(Clone, Debug, PartialEq, Eq)]
pub struct Manifest(pub Dict<Game>);

impl View for Manifest {
    type V = Map<Seq<char>, GameView>;

    open spec fn view(&self) -> Map<Seq<char>, GameView> {
        self.0@
    }
}

impl Default for Manifest {
    fn default() -> (r: Self)
        ensures
            r@ == Map::<Seq<char>, GameView>::empty(),
    {
        Manifest(Dict::new())
    }
}

} // verus!
