//! How a manifest is read from a document.
//!
//! A manifest is a mapping from titles to games. Every part of a game may
//! be left out, and a part that is null counts as left out. Fields that a
//! manifest does not know are passed over; a field of the wrong kind makes
//! the whole document invalid.

use vstd::prelude::*;
use crate::dict::Dict;
use crate::error::Error;
use crate::manifest::{
    CloudMetadata,
    FileEntryView,
    Game,
    GameFileConstraint,
    GameFileEntry,
    GameInstallDirEntry,
    GameRegistryConstraint,
    GameRegistryEntry,
    GameView,
    GogMetadata,
    IdMetadata,
    IdView,
    Manifest,
    Os,
    RegistryEntryView,
    SteamMetadata,
    Store,
    Tag,
};
use crate::ranked::{RankSet, Ranked};
use crate::text::{str_eq, text_of};
use crate::tree::{yaml_document, Node, NodeView, Numeral};

verus! {

/// A plain value that a document can hold.
pub trait Plain: Ranked {
    /// The value that a node stands for; none where it stands for none.
    spec fn read(node: NodeView) -> Option<Self>;

    fn decode(node: &Node) -> (r: Result<Self, String>)
        ensures
            r is Ok <==> Self::read(node@) is Some,
            r matches Ok(x) ==> x == Self::read(node@)->0,
    ;
}

/// A value with a view that a document can hold.
pub trait Entry: View + Sized {
    /// The view of the value that a node stands for; none where it stands
    /// for none.
    spec fn read(node: NodeView) -> Option<Self::V>;

    fn decode(node: &Node) -> (r: Result<Self, String>)
        ensures
            r is Ok <==> Self::read(node@) is Some,
            r matches Ok(x) ==> x@ == Self::read(node@)->0,
    ;
}

/// The words that tell what is wrong with a document, as a string of
/// their own.
fn invalid(what: &str) -> (r: String)
    ensures
        r@ == what@,
{
    String::from_str(what)
}

impl Plain for u32 {
    open spec fn read(node: NodeView) -> Option<u32> {
        match node {
            NodeView::Numeral(Numeral::Unsigned(n)) => if n <= u32::MAX {
                Some(n as u32)
            } else {
                None
            },
            _ => None,
        }
    }

    fn decode(node: &Node) -> (r: Result<u32, String>) {
        match node {
            Node::Numeral(Numeral::Unsigned(n)) => {
                if *n <= 0xffff_ffff {
                    Ok(*n as u32)
                } else {
                    Err(invalid("an id is too large"))
                }
            },
            _ => Err(invalid("an id is not a whole number")),
        }
    }
}

impl Plain for u64 {
    open spec fn read(node: NodeView) -> Option<u64> {
        match node {
            NodeView::Numeral(Numeral::Unsigned(n)) => Some(n),
            _ => None,
        }
    }

    fn decode(node: &Node) -> (r: Result<u64, String>) {
        match node {
            Node::Numeral(Numeral::Unsigned(n)) => Ok(*n),
            _ => Err(invalid("an id is not a whole number")),
        }
    }
}

/// The tag of a name. A name that is not known stands for `Other`.
pub open spec fn tag_named(name: Seq<char>) -> Tag {
    if name == "save"@ {
        Tag::Save
    } else if name == "config"@ {
        Tag::Config
    } else {
        Tag::Other
    }
}

impl Plain for Tag {
    open spec fn read(node: NodeView) -> Option<Tag> {
        match node {
            NodeView::Text(name) => Some(tag_named(name)),
            _ => None,
        }
    }

    fn decode(node: &Node) -> (r: Result<Tag, String>) {
        match node {
            Node::Text(name) => {
                if str_eq(name.as_str(), "save") {
                    Ok(Tag::Save)
                } else if str_eq(name.as_str(), "config") {
                    Ok(Tag::Config)
                } else {
                    Ok(Tag::Other)
                }
            },
            _ => Err(invalid("a tag is not a text")),
        }
    }
}

/// The operating system of a name. A name that is not known stands for
/// `Other`.
pub open spec fn os_named(name: Seq<char>) -> Os {
    if name == "windows"@ {
        Os::Windows
    } else if name == "linux"@ {
        Os::Linux
    } else if name == "mac"@ {
        Os::Mac
    } else {
        Os::Other
    }
}

/// The store of a name. A name that is not known stands for `Other`.
pub open spec fn store_named(name: Seq<char>) -> Store {
    if name == "ea"@ {
        Store::Ea
    } else if name == "epic"@ {
        Store::Epic
    } else if name == "gog"@ {
        Store::Gog
    } else if name == "gogGalaxy"@ {
        Store::GogGalaxy
    } else if name == "heroic"@ {
        Store::Heroic
    } else if name == "legendary"@ {
        Store::Legendary
    } else if name == "lutris"@ {
        Store::Lutris
    } else if name == "microsoft"@ {
        Store::Microsoft
    } else if name == "origin"@ {
        Store::Origin
    } else if name == "prime"@ {
        Store::Prime
    } else if name == "steam"@ {
        Store::Steam
    } else if name == "uplay"@ {
        Store::Uplay
    } else if name == "otherHome"@ {
        Store::OtherHome
    } else if name == "otherWine"@ {
        Store::OtherWine
    } else if name == "otherWindows"@ {
        Store::OtherWindows
    } else if name == "otherLinux"@ {
        Store::OtherLinux
    } else if name == "otherMac"@ {
        Store::OtherMac
    } else {
        Store::Other
    }
}

/// Reads an operating system from its name in a manifest.
pub fn os_from_name(name: &str) -> (r: Os)
    ensures
        r == os_named(name@),
{
    if str_eq(name, "windows") {
        Os::Windows
    } else if str_eq(name, "linux") {
        Os::Linux
    } else if str_eq(name, "mac") {
        Os::Mac
    } else {
        Os::Other
    }
}

/// Reads a store from its name in a manifest.
pub fn store_from_name(name: &str) -> (r: Store)
    ensures
        r == store_named(name@),
{
    if str_eq(name, "ea") {
        Store::Ea
    } else if str_eq(name, "epic") {
        Store::Epic
    } else if str_eq(name, "gog") {
        Store::Gog
    } else if str_eq(name, "gogGalaxy") {
        Store::GogGalaxy
    } else if str_eq(name, "heroic") {
        Store::Heroic
    } else if str_eq(name, "legendary") {
        Store::Legendary
    } else if str_eq(name, "lutris") {
        Store::Lutris
    } else if str_eq(name, "microsoft") {
        Store::Microsoft
    } else if str_eq(name, "origin") {
        Store::Origin
    } else if str_eq(name, "prime") {
        Store::Prime
    } else if str_eq(name, "steam") {
        Store::Steam
    } else if str_eq(name, "uplay") {
        Store::Uplay
    } else if str_eq(name, "otherHome") {
        Store::OtherHome
    } else if str_eq(name, "otherWine") {
        Store::OtherWine
    } else if str_eq(name, "otherWindows") {
        Store::OtherWindows
    } else if str_eq(name, "otherLinux") {
        Store::OtherLinux
    } else if str_eq(name, "otherMac") {
        Store::OtherMac
    } else {
        Store::Other
    }
}

/// The text of a part that may be left out. The outer option tells whether
/// the part is valid, the inner one whether it is there.
pub open spec fn read_text(node: Option<NodeView>) -> Option<Option<Seq<char>>> {
    match node {
        None => Some(None),
        Some(NodeView::Text(s)) => Some(Some(s)),
        Some(_) => None,
    }
}

/// The operating system of a part that may be left out.
pub open spec fn read_os(node: Option<NodeView>) -> Option<Option<Os>> {
    match read_text(node) {
        Some(Some(name)) => Some(Some(os_named(name))),
        Some(None) => Some(None),
        None => None,
    }
}

/// The store of a part that may be left out.
pub open spec fn read_store(node: Option<NodeView>) -> Option<Option<Store>> {
    match read_text(node) {
        Some(Some(name)) => Some(Some(store_named(name))),
        Some(None) => Some(None),
        None => None,
    }
}

/// The truth value of a part that may be left out; a part that is left
/// out is false.
pub open spec fn read_flag(node: Option<NodeView>) -> Option<bool> {
    match node {
        None => Some(false),
        Some(NodeView::Bool(b)) => Some(b),
        Some(_) => None,
    }
}

/// Whether a node can hold the fields of a record: it is a mapping.
pub open spec fn is_record(node: NodeView) -> bool {
    node is Mapping
}

fn decode_text(node: Option<&Node>) -> (r: Result<Option<String>, String>)
    ensures
        r is Ok <==> read_text(
            match node {
                Some(n) => Some(n@),
                None => None,
            },
        ) is Some,
        r matches Ok(text) ==> text_of(text) == read_text(
            match node {
                Some(n) => Some(n@),
                None => None,
            },
        )->0,
{
    match node {
        None => Ok(None),
        Some(Node::Text(s)) => Ok(Some(s.clone())),
        Some(_) => Err(invalid("a text is expected")),
    }
}

fn decode_flag(node: Option<&Node>) -> (r: Result<bool, String>)
    ensures
        r is Ok <==> read_flag(
            match node {
                Some(n) => Some(n@),
                None => None,
            },
        ) is Some,
        r matches Ok(b) ==> b == read_flag(
            match node {
                Some(n) => Some(n@),
                None => None,
            },
        )->0,
{
    match node {
        None => Ok(false),
        Some(Node::Bool(b)) => Ok(*b),
        Some(_) => Err(invalid("true or false is expected")),
    }
}

impl Plain for GameFileConstraint {
    open spec fn read(node: NodeView) -> Option<GameFileConstraint> {
        if node is Null {
            Some(GameFileConstraint { os: None, store: None })
        } else if is_record(node) && read_os(node.child("os"@)) is Some && read_store(
            node.child("store"@),
        ) is Some {
            Some(
                GameFileConstraint {
                    os: read_os(node.child("os"@))->0,
                    store: read_store(node.child("store"@))->0,
                },
            )
        } else {
            None
        }
    }

    fn decode(node: &Node) -> (r: Result<GameFileConstraint, String>) {
        proof {
            node.lemma_parts();
        }
        match node {
            Node::Null => Ok(GameFileConstraint { os: None, store: None }),
            Node::Mapping(_) => {
                let os = match decode_text(node.child("os")) {
                    Ok(Some(name)) => Some(os_from_name(name.as_str())),
                    Ok(None) => None,
                    Err(why) => {
                        return Err(why);
                    },
                };
                let store = match decode_text(node.child("store")) {
                    Ok(Some(name)) => Some(store_from_name(name.as_str())),
                    Ok(None) => None,
                    Err(why) => {
                        return Err(why);
                    },
                };
                Ok(GameFileConstraint { os, store })
            },
            _ => Err(invalid("a condition is not a mapping")),
        }
    }
}

impl Plain for GameRegistryConstraint {
    open spec fn read(node: NodeView) -> Option<GameRegistryConstraint> {
        if node is Null {
            Some(GameRegistryConstraint { store: None })
        } else if is_record(node) && read_store(node.child("store"@)) is Some {
            Some(GameRegistryConstraint { store: read_store(node.child("store"@))->0 })
        } else {
            None
        }
    }

    fn decode(node: &Node) -> (r: Result<GameRegistryConstraint, String>) {
        proof {
            node.lemma_parts();
        }
        match node {
            Node::Null => Ok(GameRegistryConstraint { store: None }),
            Node::Mapping(_) => {
                let store = match decode_text(node.child("store")) {
                    Ok(Some(name)) => Some(store_from_name(name.as_str())),
                    Ok(None) => None,
                    Err(why) => {
                        return Err(why);
                    },
                };
                Ok(GameRegistryConstraint { store })
            },
            _ => Err(invalid("a condition is not a mapping")),
        }
    }
}

/// The set of what the first `n` items stand for; none where one of them
/// stands for nothing.
pub open spec fn set_upto<T: Plain>(items: Seq<NodeView>, n: nat) -> Option<Set<T>>
    decreases n,
{
    if n == 0 {
        Some(Set::empty())
    } else {
        match (set_upto::<T>(items, (n - 1) as nat), T::read(items[n - 1])) {
            (Some(set), Some(x)) => Some(set.insert(x)),
            _ => None,
        }
    }
}

/// The set that a part holds which may be left out: a list of items.
pub open spec fn read_set<T: Plain>(node: Option<NodeView>) -> Option<Set<T>> {
    match node {
        None => Some(Set::empty()),
        Some(NodeView::List(items)) => set_upto::<T>(items, items.len()),
        Some(_) => None,
    }
}

/// Once an item stands for nothing, so does every longer run of items.
proof fn lemma_set_stays_invalid<T: Plain>(items: Seq<NodeView>, n: nat, m: nat)
    requires
        n <= m,
        set_upto::<T>(items, n) is None,
    ensures
        set_upto::<T>(items, m) is None,
    decreases m,
{
    if n < m {
        lemma_set_stays_invalid::<T>(items, n, (m - 1) as nat);
    }
}

/// Reads a set from a list of items.
#[verifier::loop_isolation(false)]
pub fn decode_set<T: Plain>(node: Option<&Node>) -> (r: Result<RankSet<T>, String>)
    ensures
        r is Ok <==> read_set::<T>(
            match node {
                Some(n) => Some(n@),
                None => None,
            },
        ) is Some,
        r matches Ok(set) ==> set@ == read_set::<T>(
            match node {
                Some(n) => Some(n@),
                None => None,
            },
        )->0,
{
    match node {
        None => Ok(RankSet::new()),
        Some(node) => {
            proof {
                node.lemma_parts();
            }
            match node {
                Node::List(items) => {
                    let ghost views = node@->List_0;
                    let mut out: RankSet<T> = RankSet::new();
                    let mut i: usize = 0;
                    while i < items.len()
                        invariant
                            i <= items.len(),
                            views.len() == items.len(),
                            node@ == NodeView::List(views),
                            forall|j: int| 0 <= j < items.len() ==> #[trigger] views[j] == items[j]@,
                            set_upto::<T>(views, i as nat) == Some(out@),
                        decreases items.len() - i,
                    {
                        match T::decode(&items[i]) {
                            Ok(x) => {
                                out.insert(x);
                            },
                            Err(why) => {
                                proof {
                                    assert(set_upto::<T>(views, (i + 1) as nat) is None);
                                    lemma_set_stays_invalid::<T>(
                                        views,
                                        (i + 1) as nat,
                                        views.len(),
                                    );
                                }
                                return Err(why);
                            },
                        }
                        i += 1;
                    }
                    Ok(out)
                },
                _ => Err(invalid("a list is expected")),
            }
        },
    }
}

/// The map of what the first `n` entries stand for; none where a key is no
/// text or a value stands for nothing. Of two entries with one key the
/// later one stays.
pub open spec fn dict_upto<V: Entry>(entries: Seq<(NodeView, NodeView)>, n: nat) -> Option<
    Map<Seq<char>, V::V>,
>
    decreases n,
{
    if n == 0 {
        Some(Map::empty())
    } else {
        match (dict_upto::<V>(entries, (n - 1) as nat), entries[n - 1].0, V::read(entries[n - 1].1)) {
            (Some(map), NodeView::Text(key), Some(value)) => Some(map.insert(key, value)),
            _ => None,
        }
    }
}

/// The map that a part holds which may be left out: a mapping from texts.
pub open spec fn read_dict<V: Entry>(node: Option<NodeView>) -> Option<Map<Seq<char>, V::V>> {
    match node {
        None => Some(Map::empty()),
        Some(NodeView::Mapping(entries)) => dict_upto::<V>(entries, entries.len()),
        Some(_) => None,
    }
}

/// Once an entry stands for nothing, so does every longer run of entries.
proof fn lemma_dict_stays_invalid<V: Entry>(entries: Seq<(NodeView, NodeView)>, n: nat, m: nat)
    requires
        n <= m,
        dict_upto::<V>(entries, n) is None,
    ensures
        dict_upto::<V>(entries, m) is None,
    decreases m,
{
    if n < m {
        lemma_dict_stays_invalid::<V>(entries, n, (m - 1) as nat);
    }
}

/// Reads a map from a mapping.
#[verifier::loop_isolation(false)]
pub fn decode_dict<V: Entry>(node: Option<&Node>) -> (r: Result<Dict<V>, String>)
    ensures
        r is Ok <==> read_dict::<V>(
            match node {
                Some(n) => Some(n@),
                None => None,
            },
        ) is Some,
        r matches Ok(dict) ==> dict@ == read_dict::<V>(
            match node {
                Some(n) => Some(n@),
                None => None,
            },
        )->0,
{
    match node {
        None => Ok(Dict::new()),
        Some(node) => {
            proof {
                node.lemma_parts();
            }
            match node {
                Node::Mapping(entries) => {
                    let ghost views = node@->Mapping_0;
                    let mut out: Dict<V> = Dict::new();
                    let mut i: usize = 0;
                    while i < entries.len()
                        invariant
                            i <= entries.len(),
                            views.len() == entries.len(),
                            node@ == NodeView::Mapping(views),
                            forall|j: int|
                                0 <= j < entries.len() ==> #[trigger] views[j] == (
                                    entries[j].0@,
                                    entries[j].1@,
                                ),
                            dict_upto::<V>(views, i as nat) == Some(out@),
                        decreases entries.len() - i,
                    {
                        proof {
                            entries[i as int].0.lemma_parts();
                        }
                        let key = match &entries[i].0 {
                            Node::Text(key) => key.clone(),
                            _ => {
                                proof {
                                    assert(dict_upto::<V>(views, (i + 1) as nat) is None);
                                    lemma_dict_stays_invalid::<V>(
                                        views,
                                        (i + 1) as nat,
                                        views.len(),
                                    );
                                }
                                return Err(invalid("a key is not a text"));
                            },
                        };
                        match V::decode(&entries[i].1) {
                            Ok(value) => {
                                out.insert(key, value);
                            },
                            Err(why) => {
                                proof {
                                    assert(dict_upto::<V>(views, (i + 1) as nat) is None);
                                    lemma_dict_stays_invalid::<V>(
                                        views,
                                        (i + 1) as nat,
                                        views.len(),
                                    );
                                }
                                return Err(why);
                            },
                        }
                        i += 1;
                    }
                    Ok(out)
                },
                _ => Err(invalid("a mapping is expected")),
            }
        },
    }
}

impl Entry for GameFileEntry {
    open spec fn read(node: NodeView) -> Option<FileEntryView> {
        if node is Null {
            Some(FileEntryView::unconditional())
        } else if is_record(node) && read_set::<Tag>(node.child("tags"@)) is Some && read_set::<
            GameFileConstraint,
        >(node.child("when"@)) is Some {
            Some(
                FileEntryView {
                    tags: read_set::<Tag>(node.child("tags"@))->0,
                    when: read_set::<GameFileConstraint>(node.child("when"@))->0,
                },
            )
        } else {
            None
        }
    }

    fn decode(node: &Node) -> (r: Result<GameFileEntry, String>) {
        proof {
            node.lemma_parts();
        }
        match node {
            Node::Null => Ok(GameFileEntry::default()),
            Node::Mapping(_) => {
                let tags = match decode_set::<Tag>(node.child("tags")) {
                    Ok(tags) => tags,
                    Err(why) => {
                        return Err(why);
                    },
                };
                let when = match decode_set::<GameFileConstraint>(node.child("when")) {
                    Ok(when) => when,
                    Err(why) => {
                        return Err(why);
                    },
                };
                Ok(GameFileEntry { tags, when })
            },
            _ => Err(invalid("the entry of a file is not a mapping")),
        }
    }
}

impl Entry for GameRegistryEntry {
    open spec fn read(node: NodeView) -> Option<RegistryEntryView> {
        if node is Null {
            Some(RegistryEntryView::unconditional())
        } else if is_record(node) && read_set::<Tag>(node.child("tags"@)) is Some && read_set::<
            GameRegistryConstraint,
        >(node.child("when"@)) is Some {
            Some(
                RegistryEntryView {
                    tags: read_set::<Tag>(node.child("tags"@))->0,
                    when: read_set::<GameRegistryConstraint>(node.child("when"@))->0,
                },
            )
        } else {
            None
        }
    }

    fn decode(node: &Node) -> (r: Result<GameRegistryEntry, String>) {
        proof {
            node.lemma_parts();
        }
        match node {
            Node::Null => Ok(GameRegistryEntry::default()),
            Node::Mapping(_) => {
                let tags = match decode_set::<Tag>(node.child("tags")) {
                    Ok(tags) => tags,
                    Err(why) => {
                        return Err(why);
                    },
                };
                let when = match decode_set::<GameRegistryConstraint>(node.child("when")) {
                    Ok(when) => when,
                    Err(why) => {
                        return Err(why);
                    },
                };
                Ok(GameRegistryEntry { tags, when })
            },
            _ => Err(invalid("the entry of a registry key is not a mapping")),
        }
    }
}

impl Entry for GameInstallDirEntry {
    open spec fn read(node: NodeView) -> Option<()> {
        if node is Null || is_record(node) {
            Some(())
        } else {
            None
        }
    }

    fn decode(node: &Node) -> (r: Result<GameInstallDirEntry, String>) {
        proof {
            node.lemma_parts();
        }
        match node {
            Node::Null => Ok(GameInstallDirEntry {  }),
            Node::Mapping(_) => Ok(GameInstallDirEntry {  }),
            _ => Err(invalid("the entry of a folder is not a mapping")),
        }
    }
}

/// The id at Steam that a part holds which may be left out.
pub open spec fn read_steam(node: Option<NodeView>) -> Option<SteamMetadata> {
    match node {
        None => Some(SteamMetadata { id: None }),
        Some(record) => if !is_record(record) {
            None
        } else {
            match record.child("id"@) {
                None => Some(SteamMetadata { id: None }),
                Some(id) => match <u32 as Plain>::read(id) {
                    Some(id) => Some(SteamMetadata { id: Some(id) }),
                    None => None,
                },
            }
        },
    }
}

/// The id at GOG that a part holds which may be left out.
pub open spec fn read_gog(node: Option<NodeView>) -> Option<GogMetadata> {
    match node {
        None => Some(GogMetadata { id: None }),
        Some(record) => if !is_record(record) {
            None
        } else {
            match record.child("id"@) {
                None => Some(GogMetadata { id: None }),
                Some(id) => match <u64 as Plain>::read(id) {
                    Some(id) => Some(GogMetadata { id: Some(id) }),
                    None => None,
                },
            }
        },
    }
}

/// The further ids that a part holds which may be left out.
pub open spec fn read_ids(node: Option<NodeView>) -> Option<IdView> {
    match node {
        None => Some(IdView::empty()),
        Some(record) => if is_record(record) && read_text(record.child("flatpak"@)) is Some
            && read_set::<u64>(record.child("gogExtra"@)) is Some && read_text(
            record.child("lutris"@),
        ) is Some && read_set::<u32>(record.child("steamExtra"@)) is Some {
            Some(
                IdView {
                    flatpak: read_text(record.child("flatpak"@))->0,
                    gog_extra: read_set::<u64>(record.child("gogExtra"@))->0,
                    lutris: read_text(record.child("lutris"@))->0,
                    steam_extra: read_set::<u32>(record.child("steamExtra"@))->0,
                },
            )
        } else {
            None
        },
    }
}

/// The clouds that a part names which may be left out.
pub open spec fn read_cloud(node: Option<NodeView>) -> Option<CloudMetadata> {
    match node {
        None => Some(CloudMetadata::none()),
        Some(record) => if is_record(record) && read_flag(record.child("epic"@)) is Some
            && read_flag(record.child("gog"@)) is Some && read_flag(record.child("origin"@))
            is Some && read_flag(record.child("steam"@)) is Some && read_flag(
            record.child("uplay"@),
        ) is Some {
            Some(
                CloudMetadata {
                    epic: read_flag(record.child("epic"@))->0,
                    gog: read_flag(record.child("gog"@))->0,
                    origin: read_flag(record.child("origin"@))->0,
                    steam: read_flag(record.child("steam"@))->0,
                    uplay: read_flag(record.child("uplay"@))->0,
                },
            )
        } else {
            None
        },
    }
}

/// The view of an optional node.
pub open spec fn view_of(node: Option<&Node>) -> Option<NodeView> {
    match node {
        Some(n) => Some(n@),
        None => None,
    }
}

fn decode_steam(node: Option<&Node>) -> (r: Result<SteamMetadata, String>)
    ensures
        r is Ok <==> read_steam(view_of(node)) is Some,
        r matches Ok(x) ==> x == read_steam(view_of(node))->0,
{
    match node {
        None => Ok(SteamMetadata { id: None }),
        Some(record) => {
            proof {
                record.lemma_parts();
            }
            match record {
                Node::Mapping(_) => match record.child("id") {
                    None => Ok(SteamMetadata { id: None }),
                    Some(id) => match <u32 as Plain>::decode(id) {
                        Ok(id) => Ok(SteamMetadata { id: Some(id) }),
                        Err(why) => Err(why),
                    },
                },
                _ => Err(invalid("the ids at Steam are not a mapping")),
            }
        },
    }
}

fn decode_gog(node: Option<&Node>) -> (r: Result<GogMetadata, String>)
    ensures
        r is Ok <==> read_gog(view_of(node)) is Some,
        r matches Ok(x) ==> x == read_gog(view_of(node))->0,
{
    match node {
        None => Ok(GogMetadata { id: None }),
        Some(record) => {
            proof {
                record.lemma_parts();
            }
            match record {
                Node::Mapping(_) => match record.child("id") {
                    None => Ok(GogMetadata { id: None }),
                    Some(id) => match <u64 as Plain>::decode(id) {
                        Ok(id) => Ok(GogMetadata { id: Some(id) }),
                        Err(why) => Err(why),
                    },
                },
                _ => Err(invalid("the ids at GOG are not a mapping")),
            }
        },
    }
}

fn decode_ids(node: Option<&Node>) -> (r: Result<IdMetadata, String>)
    ensures
        r is Ok <==> read_ids(view_of(node)) is Some,
        r matches Ok(x) ==> x@ == read_ids(view_of(node))->0,
{
    match node {
        None => Ok(IdMetadata::default()),
        Some(record) => {
            proof {
                record.lemma_parts();
            }
            match record {
                Node::Mapping(_) => {
                    let flatpak = match decode_text(record.child("flatpak")) {
                        Ok(x) => x,
                        Err(why) => {
                            return Err(why);
                        },
                    };
                    let gog_extra = match decode_set::<u64>(record.child("gogExtra")) {
                        Ok(x) => x,
                        Err(why) => {
                            return Err(why);
                        },
                    };
                    let lutris = match decode_text(record.child("lutris")) {
                        Ok(x) => x,
                        Err(why) => {
                            return Err(why);
                        },
                    };
                    let steam_extra = match decode_set::<u32>(record.child("steamExtra")) {
                        Ok(x) => x,
                        Err(why) => {
                            return Err(why);
                        },
                    };
                    Ok(IdMetadata { flatpak, gog_extra, lutris, steam_extra })
                },
                _ => Err(invalid("the ids are not a mapping")),
            }
        },
    }
}

fn decode_cloud(node: Option<&Node>) -> (r: Result<CloudMetadata, String>)
    ensures
        r is Ok <==> read_cloud(view_of(node)) is Some,
        r matches Ok(x) ==> x == read_cloud(view_of(node))->0,
{
    match node {
        None => Ok(CloudMetadata::default()),
        Some(record) => {
            proof {
                record.lemma_parts();
            }
            match record {
                Node::Mapping(_) => {
                    let epic = match decode_flag(record.child("epic")) {
                        Ok(x) => x,
                        Err(why) => {
                            return Err(why);
                        },
                    };
                    let gog = match decode_flag(record.child("gog")) {
                        Ok(x) => x,
                        Err(why) => {
                            return Err(why);
                        },
                    };
                    let origin = match decode_flag(record.child("origin")) {
                        Ok(x) => x,
                        Err(why) => {
                            return Err(why);
                        },
                    };
                    let steam = match decode_flag(record.child("steam")) {
                        Ok(x) => x,
                        Err(why) => {
                            return Err(why);
                        },
                    };
                    let uplay = match decode_flag(record.child("uplay")) {
                        Ok(x) => x,
                        Err(why) => {
                            return Err(why);
                        },
                    };
                    Ok(CloudMetadata { epic, gog, origin, steam, uplay })
                },
                _ => Err(invalid("the clouds are not a mapping")),
            }
        },
    }
}

/// Whether every part of a game that a node holds is valid.
pub open spec fn game_parts_valid(node: NodeView) -> bool {
    &&& read_text(node.child("alias"@)) is Some
    &&& read_dict::<GameFileEntry>(node.child("files"@)) is Some
    &&& read_dict::<GameInstallDirEntry>(node.child("installDir"@)) is Some
    &&& read_dict::<GameRegistryEntry>(node.child("registry"@)) is Some
    &&& read_steam(node.child("steam"@)) is Some
    &&& read_gog(node.child("gog"@)) is Some
    &&& read_ids(node.child("id"@)) is Some
    &&& read_cloud(node.child("cloud"@)) is Some
}

impl Entry for Game {
    open spec fn read(node: NodeView) -> Option<GameView> {
        if node is Null {
            Some(GameView::empty())
        } else if is_record(node) && game_parts_valid(node) {
            Some(
                GameView {
                    alias: read_text(node.child("alias"@))->0,
                    files: read_dict::<GameFileEntry>(node.child("files"@))->0,
                    install_dir: read_dict::<GameInstallDirEntry>(node.child("installDir"@))->0.dom(),
                    registry: read_dict::<GameRegistryEntry>(node.child("registry"@))->0,
                    steam: read_steam(node.child("steam"@))->0,
                    gog: read_gog(node.child("gog"@))->0,
                    id: read_ids(node.child("id"@))->0,
                    cloud: read_cloud(node.child("cloud"@))->0,
                },
            )
        } else {
            None
        }
    }

    fn decode(node: &Node) -> (r: Result<Game, String>) {
        proof {
            node.lemma_parts();
        }
        match node {
            Node::Null => Ok(Game::default()),
            Node::Mapping(_) => {
                let alias = match decode_text(node.child("alias")) {
                    Ok(x) => x,
                    Err(why) => {
                        return Err(why);
                    },
                };
                let files = match decode_dict::<GameFileEntry>(node.child("files")) {
                    Ok(x) => x,
                    Err(why) => {
                        return Err(why);
                    },
                };
                let install_dir = match decode_dict::<GameInstallDirEntry>(
                    node.child("installDir"),
                ) {
                    Ok(x) => x,
                    Err(why) => {
                        return Err(why);
                    },
                };
                let registry = match decode_dict::<GameRegistryEntry>(node.child("registry")) {
                    Ok(x) => x,
                    Err(why) => {
                        return Err(why);
                    },
                };
                let steam = match decode_steam(node.child("steam")) {
                    Ok(x) => x,
                    Err(why) => {
                        return Err(why);
                    },
                };
                let gog = match decode_gog(node.child("gog")) {
                    Ok(x) => x,
                    Err(why) => {
                        return Err(why);
                    },
                };
                let id = match decode_ids(node.child("id")) {
                    Ok(x) => x,
                    Err(why) => {
                        return Err(why);
                    },
                };
                let cloud = match decode_cloud(node.child("cloud")) {
                    Ok(x) => x,
                    Err(why) => {
                        return Err(why);
                    },
                };
                Ok(Game { alias, files, install_dir, registry, steam, gog, id, cloud })
            },
            _ => Err(invalid("a game is not a mapping")),
        }
    }
}

/// The manifest that a document holds: a mapping from titles to games, or
/// nothing at all.
pub open spec fn read_manifest(node: NodeView) -> Option<Map<Seq<char>, GameView>> {
    if node is Null {
        Some(Map::empty())
    } else {
        read_dict::<Game>(Some(node))
    }
}

/// The manifest that a text holds, or the reason why it holds none.
pub open spec fn manifest_of_text(content: Seq<char>) -> Option<Map<Seq<char>, GameView>> {
    match yaml_document(content) {
        Ok(node) => read_manifest(node),
        Err(_) => None,
    }
}

impl Manifest {
    /// Reads a manifest from a document.
    pub fn from_node(node: &Node) -> (r: Result<Manifest, String>)
        ensures
            r is Ok <==> read_manifest(node@) is Some,
            r matches Ok(manifest) ==> manifest@ == read_manifest(node@)->0,
    {
        proof {
            node.lemma_parts();
        }
        match node {
            Node::Null => Ok(Manifest(Dict::new())),
            _ => match decode_dict::<Game>(Some(node)) {
                Ok(games) => Ok(Manifest(games)),
                Err(why) => Err(why),
            },
        }
    }

    /// Reads a manifest from a YAML text.
    pub fn load_from_string(content: &str) -> (r: Result<Manifest, String>)
        ensures
            r is Ok <==> manifest_of_text(content@) is Some,
            r matches Ok(manifest) ==> manifest@ == manifest_of_text(content@)->0,
            r matches Err(why) ==> (yaml_document(content@) matches Err(reason) ==> why@
                == reason),
    {
        match Node::from_yaml(content) {
            Ok(node) => Manifest::from_node(&node),
            Err(why) => Err(why),
        }
    }

    /// Reads the primary manifest from the text of its file.
    pub fn load(content: &str) -> (r: Result<Manifest, Error>)
        ensures
            r is Ok <==> manifest_of_text(content@) is Some,
            r matches Ok(manifest) ==> manifest@ == manifest_of_text(content@)->0,
            r matches Err(e) ==> e matches Error::ManifestInvalid { identifier, .. }
                && identifier is None,
    {
        match Manifest::load_from_string(content) {
            Ok(manifest) => Ok(manifest),
            Err(why) => Err(Error::ManifestInvalid { why, identifier: None }),
        }
    }
}

} // verus!
