//! How a manifest takes in secondary manifests and custom games.

use vstd::prelude::*;
use crate::dict::{lemma_ascending_distinct, Dict};
use crate::manifest::{
    CloudMetadata,
    FileEntryView,
    Game,
    GameFileEntry,
    GameInstallDirEntry,
    GameRegistryEntry,
    GameView,
    IdView,
    Manifest,
    RegistryEntryView,
};
use crate::placeholder::BASE;
use crate::text::{lemma_text_order, strip_prefix, text_before, text_of};

verus! {

/// `path` without `prefix`, behind the placeholder of the base folder and
/// `onto`.
pub open spec fn rebased(path: Seq<char>, prefix: Seq<char>, onto: Seq<char>) -> Seq<char> {
    BASE@ + onto + path.subrange(prefix.len() as int, path.len() as int)
}

/// A path of a secondary manifest as the merged manifest holds it: a path
/// that starts at the folder of the manifest, or at the one above, starts at
/// the placeholder of the base folder instead. Other paths stay.
pub open spec fn normalized_path(path: Seq<char>) -> Seq<char> {
    if "./"@.is_prefix_of(path) {
        rebased(path, "./"@, "/"@)
    } else if ".\\"@.is_prefix_of(path) {
        rebased(path, ".\\"@, "/"@)
    } else if "../"@.is_prefix_of(path) {
        rebased(path, "../"@, "/../"@)
    } else if "..\\"@.is_prefix_of(path) {
        rebased(path, "..\\"@, "/../"@)
    } else {
        path
    }
}

/// Whether `path` is the one among the paths of `files` with its normal
/// form that comes last. Where several paths have one normal form, the
/// entry of the last of them is kept.
pub open spec fn prevails<T>(files: Map<Seq<char>, T>, path: Seq<char>) -> bool {
    &&& files.dom().contains(path)
    &&& forall|other: Seq<char>|
        files.dom().contains(other) && #[trigger] normalized_path(other) == normalized_path(path)
            ==> other == path || text_before(other, path)
}

/// The files of a game with every path in its normal form.
pub open spec fn normalized_files<T>(files: Map<Seq<char>, T>) -> Map<Seq<char>, T> {
    Map::new(
        |target: Seq<char>|
            exists|path: Seq<char>|
                files.dom().contains(path) && #[trigger] normalized_path(path) == target,
        |target: Seq<char>|
            files[choose|path: Seq<char>|
                prevails(files, path) && #[trigger] normalized_path(path) == target],
    )
}

/// A game with the paths of its files in their normal form.
pub open spec fn normalized_game(game: GameView) -> GameView {
    GameView { files: normalized_files(game.files), ..game }
}

/// Paths that start at the folder of a manifest or at the one above come
/// to start at the placeholder of the base folder; `..` is kept behind it.
pub proof fn lemma_relative_paths_are_rebased(rest: Seq<char>)
    ensures
        normalized_path(seq!['.', '/'] + rest) == BASE@ + seq!['/'] + rest,
        normalized_path(seq!['.', '\\'] + rest) == BASE@ + seq!['/'] + rest,
        normalized_path(seq!['.', '.', '/'] + rest) == BASE@ + seq!['/', '.', '.', '/'] + rest,
        normalized_path(seq!['.', '.', '\\'] + rest) == BASE@ + seq!['/', '.', '.', '/'] + rest,
        BASE@ == seq!['<', 'b', 'a', 's', 'e', '>'],
{
    reveal_strlit("./");
    reveal_strlit(".\\");
    reveal_strlit("../");
    reveal_strlit("..\\");
    reveal_strlit("/");
    reveal_strlit("/../");
    reveal_strlit("<base>");
    assert(BASE@ =~= seq!['<', 'b', 'a', 's', 'e', '>']);
    let a = seq!['.', '/'] + rest;
    let b = seq!['.', '\\'] + rest;
    let c = seq!['.', '.', '/'] + rest;
    let d = seq!['.', '.', '\\'] + rest;
    assert("./"@ =~= seq!['.', '/']);
    assert(".\\"@ =~= seq!['.', '\\']);
    assert("../"@ =~= seq!['.', '.', '/']);
    assert("..\\"@ =~= seq!['.', '.', '\\']);
    assert("/"@ =~= seq!['/']);
    assert("/../"@ =~= seq!['/', '.', '.', '/']);
    assert(a.subrange(0, 2) =~= "./"@);
    assert(a.subrange(2, a.len() as int) =~= rest);
    assert(b.subrange(0, 2) =~= ".\\"@);
    assert(b.subrange(2, b.len() as int) =~= rest);
    assert(b.subrange(0, 2)[1] != "./"@[1]);
    assert(c.subrange(0, 3) =~= "../"@);
    assert(c.subrange(3, c.len() as int) =~= rest);
    assert(c.subrange(0, 2)[1] != "./"@[1]);
    assert(c.subrange(0, 2)[1] != ".\\"@[1]);
    assert(d.subrange(0, 3) =~= "..\\"@);
    assert(d.subrange(3, d.len() as int) =~= rest);
    assert(d.subrange(0, 2)[1] != "./"@[1]);
    assert(d.subrange(0, 2)[1] != ".\\"@[1]);
    assert(d.subrange(0, 3)[2] != "../"@[2]);
}

/// Puts a path into its normal form.
pub fn normalize_path(path: String) -> (r: String)
    ensures
        r@ == normalized_path(path@),
{
    let rest = strip_prefix(path.as_str(), "./");
    let (rest, onto) = match rest {
        Some(rest) => (Some(rest), "/"),
        None => match strip_prefix(path.as_str(), ".\\") {
            Some(rest) => (Some(rest), "/"),
            None => match strip_prefix(path.as_str(), "../") {
                Some(rest) => (Some(rest), "/../"),
                None => match strip_prefix(path.as_str(), "..\\") {
                    Some(rest) => (Some(rest), "/../"),
                    None => (None, "/"),
                },
            },
        },
    };
    match rest {
        Some(rest) => {
            let mut r = String::from_str(BASE);
            r.append(onto);
            r.append(rest);
            r
        },
        None => path,
    }
}

/// Whether place `j` is the last among `keys` whose path has the normal
/// form `target`.
pub open spec fn last_for(keys: Seq<Seq<char>>, j: int, target: Seq<char>) -> bool {
    &&& 0 <= j < keys.len()
    &&& normalized_path(keys[j]) == target
    &&& forall|later: int|
        j < later < keys.len() ==> #[trigger] normalized_path(keys[later]) != target
}

/// Puts the path of every entry into its normal form.
pub fn normalize_files<V: View>(files: Dict<V>) -> (r: Dict<V>)
    ensures
        r@ == normalized_files(files@),
{
    let ghost keys = files.keys();
    let ghost values = files.values();
    let mut entries = files.into_entries();
    let ghost n = keys.len();
    let mut out: Dict<V> = Dict::new();
    proof {
        lemma_ascending_distinct(keys);
    }
    while entries.len() > 0
        invariant
            files.listed(),
            keys == files.keys(),
            values == files.values(),
            n == keys.len(),
            entries.len() <= n,
            forall|i: int|
                0 <= i < entries.len() ==> (#[trigger] entries[i]).0@ == keys[i] && entries[i].1@
                    == values[i],
            forall|j: int|
                entries.len() <= j < n ==> out@.dom().contains(#[trigger] normalized_path(keys[j])),
            forall|target: Seq<char>| #[trigger]
                out@.dom().contains(target) ==> exists|j: int|
                    entries.len() <= j < n && last_for(keys, j, target),
            forall|j: int|
                entries.len() <= j < n && #[trigger] last_for(keys, j, normalized_path(keys[j]))
                    ==> out@[normalized_path(keys[j])] == values[j],
        decreases entries.len(),
    {
        let ghost rest = entries.len() - 1;
        let ghost before = out@;
        let last = entries.pop();
        match last {
            Some((key, value)) => {
                assert(key@ == keys[rest] && value@ == values[rest]);
                let target = normalize_path(key);
                let ghost t = target@;
                if !out.contains_key(target.as_str()) {
                    out.insert(target, value);
                    proof {
                        assert(last_for(keys, rest, t)) by {
                            assert forall|later: int| rest < later < keys.len() implies normalized_path(
                                keys[later],
                            ) != t by {
                                assert(before.dom().contains(normalized_path(keys[later])));
                            }
                        }
                        assert forall|target: Seq<char>| #[trigger]
                            out@.dom().contains(target) implies exists|j: int|
                            rest <= j < n && last_for(keys, j, target) by {
                            if target != t {
                                assert(before.dom().contains(target));
                                let j = choose|j: int| rest + 1 <= j < n && last_for(keys, j, target);
                                assert(rest <= j < n && last_for(keys, j, target));
                            }
                        }
                        assert forall|j: int|
                            rest <= j < n && #[trigger] last_for(
                                keys,
                                j,
                                normalized_path(keys[j]),
                            ) implies out@[normalized_path(keys[j])] == values[j] by {
                            if j > rest {
                                assert(before.dom().contains(normalized_path(keys[j])));
                            }
                        }
                    }
                } else {
                    proof {
                        let j = choose|j: int| rest + 1 <= j < n && last_for(keys, j, t);
                        assert(rest <= j < n && last_for(keys, j, t));
                        assert forall|target: Seq<char>| #[trigger]
                            out@.dom().contains(target) implies exists|j: int|
                            rest <= j < n && last_for(keys, j, target) by {
                            let j = choose|j: int| rest + 1 <= j < n && last_for(keys, j, target);
                            assert(rest <= j < n && last_for(keys, j, target));
                        }
                        assert(!last_for(keys, rest, t)) by {
                            assert(normalized_path(keys[j]) == t);
                        }
                    }
                }
            },
            None => {},
        }
    }
    proof {
        let a = out@;
        let b = normalized_files(files@);
        assert forall|target: Seq<char>| a.dom().contains(target) == b.dom().contains(target) by {
            if a.dom().contains(target) {
                let j = choose|j: int| 0 <= j < n && last_for(keys, j, target);
                assert(files@.dom().contains(keys[j]));
                assert(normalized_path(keys[j]) == target);
            }
            if b.dom().contains(target) {
                let path = choose|path: Seq<char>|
                    files@.dom().contains(path) && #[trigger] normalized_path(path) == target;
                assert(keys.to_set().contains(path));
                assert(keys.contains(path));
                let j = keys.index_of(path);
                assert(0 <= j < n && keys[j] == path);
                assert(a.dom().contains(normalized_path(keys[j])));
            }
        }
        assert forall|target: Seq<char>| a.dom().contains(target) implies a[target] == b[target] by {
            let j = choose|j: int| 0 <= j < n && last_for(keys, j, target);
            assert(last_for(keys, j, target));
            assert(files@.dom().contains(keys[j]));
            assert(prevails(files@, keys[j])) by {
                assert forall|other: Seq<char>|
                    files@.dom().contains(other) && #[trigger] normalized_path(other)
                        == normalized_path(keys[j]) implies other == keys[j] || text_before(
                    other,
                    keys[j],
                ) by {
                    assert(keys.to_set().contains(other));
                    assert(keys.contains(other));
                    let i = keys.index_of(other);
                    assert(0 <= i < n && keys[i] == other);
                    if i > j {
                        assert(normalized_path(keys[i]) != target);
                    }
                }
            }
            let chosen = choose|path: Seq<char>|
                prevails(files@, path) && #[trigger] normalized_path(path) == target;
            assert(prevails(files@, chosen) && normalized_path(chosen) == target);
            assert(chosen == keys[j]) by {
                lemma_text_order(chosen, keys[j], chosen);
            }
            assert(a[normalized_path(keys[j])] == values[j]);
            assert(files@[keys[j]] == values[j]);
        }
        assert(a =~= b);
    }
    out
}

impl Game {
    /// Puts the paths of the files into their normal form. This is meant
    /// for the games of a secondary manifest.
    pub fn normalize_relative_paths(&mut self)
        ensures
            final(self)@ == normalized_game(old(self)@),
    {
        let mut files: Dict<GameFileEntry> = Dict::new();
        core::mem::swap(&mut self.files, &mut files);
        self.files = normalize_files(files);
    }
}

/// The hints of a game together with the folder of a secondary manifest,
/// where that folder has a name.
pub open spec fn with_folder(hints: Set<Seq<char>>, folder: Option<Seq<char>>) -> Set<Seq<char>> {
    match folder {
        Some(folder) => hints.insert(folder),
        None => hints,
    }
}

/// What becomes of the game `standard` when a secondary manifest in
/// `folder` says `game` of the same title. Paths and registry keys of both
/// are kept, and where both have one, what `game` says of it stays. The
/// folder and the hints of `game` are added to the hints. The ids at Steam,
/// at GOG and at Flatpak stay where `standard` has them and else come from
/// `game`; the further ids of both are kept.
pub open spec fn merged_game(standard: GameView, game: GameView, folder: Option<Seq<char>>) -> GameView {
    GameView {
        alias: standard.alias,
        files: standard.files.union_prefer_right(game.files),
        install_dir: with_folder(standard.install_dir, folder).union(game.install_dir),
        registry: standard.registry.union_prefer_right(game.registry),
        steam: if standard.steam.id is None {
            game.steam
        } else {
            standard.steam
        },
        gog: if standard.gog.id is None {
            game.gog
        } else {
            standard.gog
        },
        id: IdView {
            flatpak: if standard.id.flatpak is None {
                game.id.flatpak
            } else {
                standard.id.flatpak
            },
            gog_extra: standard.id.gog_extra.union(game.id.gog_extra),
            lutris: standard.id.lutris,
            steam_extra: standard.id.steam_extra.union(game.id.steam_extra),
        },
        cloud: standard.cloud,
    }
}

/// What a manifest holds of a game that only a secondary manifest in
/// `folder` knows: what that manifest says, and the folder as a hint.
pub open spec fn added_game(game: GameView, folder: Option<Seq<char>>) -> GameView {
    GameView { install_dir: with_folder(game.install_dir, folder), ..game }
}

/// What a manifest holds of a title after a secondary manifest said
/// `game` of it.
pub open spec fn incorporated_game(
    existing: Option<GameView>,
    game: GameView,
    folder: Option<Seq<char>>,
) -> GameView {
    match existing {
        Some(standard) => merged_game(standard, normalized_game(game), folder),
        None => added_game(normalized_game(game), folder),
    }
}

/// What a manifest holds under `title`, if anything.
pub open spec fn lookup(doc: Map<Seq<char>, GameView>, title: Seq<char>) -> Option<GameView> {
    if doc.dom().contains(title) {
        Some(doc[title])
    } else {
        None
    }
}

/// A manifest after it has taken in the secondary manifest `secondary`
/// that lies in `folder`.
pub open spec fn with_secondary(
    doc: Map<Seq<char>, GameView>,
    secondary: Map<Seq<char>, GameView>,
    folder: Option<Seq<char>>,
) -> Map<Seq<char>, GameView> {
    Map::new(
        |title: Seq<char>| doc.dom().contains(title) || secondary.dom().contains(title),
        |title: Seq<char>|
            if secondary.dom().contains(title) {
                incorporated_game(lookup(doc, title), secondary[title], folder)
            } else {
                doc[title]
            },
    )
}

/// What the user says of a game: its name, and where its saves are.
#[derive(Clone, Debug, PartialEq, Eq)]
pub struct CustomGame {
    pub name: String,
    /// Whether the game is to be left out.
    pub ignore: bool,
    pub alias: Option<String>,
    pub files: Vec<String>,
    pub registry: Vec<String>,
}

/// A custom game as a mathematical value.
pub struct CustomGameView {
    pub name: Seq<char>,
    pub ignore: bool,
    pub alias: Option<Seq<char>>,
    pub files: Seq<Seq<char>>,
    pub registry: Seq<Seq<char>>,
}

impl View for CustomGame {
    type V = CustomGameView;

    open spec fn view(&self) -> CustomGameView {
        CustomGameView {
            name: self.name@,
            ignore: self.ignore,
            alias: text_of(self.alias),
            files: self.files.deep_view(),
            registry: self.registry.deep_view(),
        }
    }
}

/// Each of `paths` with the entry `entry`.
pub open spec fn each_with<T>(paths: Seq<Seq<char>>, entry: T) -> Map<Seq<char>, T> {
    Map::new(|path: Seq<char>| paths.contains(path), |path: Seq<char>| entry)
}

/// What a manifest holds of a custom game: the paths and registry keys of
/// the user, each kept always and without a tag; the hints and ids of the
/// game of that name that the manifest held before, if it held one; and no
/// store that keeps the saves in its cloud.
pub open spec fn custom_entry(existing: Option<GameView>, custom: CustomGameView) -> GameView {
    let known = match existing {
        Some(game) => game,
        None => GameView::empty(),
    };
    GameView {
        alias: custom.alias,
        files: each_with(custom.files, FileEntryView::unconditional()),
        install_dir: known.install_dir,
        registry: each_with(custom.registry, RegistryEntryView::unconditional()),
        steam: known.steam,
        gog: known.gog,
        id: known.id,
        cloud: CloudMetadata::none(),
    }
}

/// A manifest after it has taken in a custom game.
pub open spec fn with_custom_game(doc: Map<Seq<char>, GameView>, custom: CustomGameView) -> Map<
    Seq<char>,
    GameView,
> {
    doc.insert(custom.name, custom_entry(lookup(doc, custom.name), custom))
}

fn unconditional_files(paths: Vec<String>) -> (r: Dict<GameFileEntry>)
    ensures
        r@ == each_with(paths.deep_view(), FileEntryView::unconditional()),
{
    let ghost all = paths.deep_view();
    let mut paths = paths;
    let mut out: Dict<GameFileEntry> = Dict::new();
    while paths.len() > 0
        invariant
            paths.len() <= all.len(),
            forall|i: int| 0 <= i < paths.len() ==> (#[trigger] paths[i])@ == all[i],
            forall|path: Seq<char>|
                out@.dom().contains(path) <==> exists|i: int|
                    paths.len() <= i < all.len() && all[i] == path,
            forall|path: Seq<char>|
                out@.dom().contains(path) ==> out@[path] == FileEntryView::unconditional(),
        decreases paths.len(),
    {
        let ghost rest = paths.len() - 1;
        let ghost before = out@;
        match paths.pop() {
            Some(path) => {
                assert(path@ == all[rest]);
                out.insert(path, GameFileEntry::default());
                assert forall|path: Seq<char>|
                    out@.dom().contains(path) <==> exists|i: int|
                        rest <= i < all.len() && all[i] == path by {
                    if before.dom().contains(path) {
                        let i = choose|i: int| rest + 1 <= i < all.len() && all[i] == path;
                        assert(rest <= i < all.len() && all[i] == path);
                    }
                    if exists|i: int| rest <= i < all.len() && all[i] == path {
                        let i = choose|i: int| rest <= i < all.len() && all[i] == path;
                        if i != rest {
                            assert(rest + 1 <= i < all.len() && all[i] == path);
                        }
                    }
                }
            },
            None => {},
        }
    }
    assert(out@ =~= each_with(all, FileEntryView::unconditional()));
    out
}

fn unconditional_registry(paths: Vec<String>) -> (r: Dict<GameRegistryEntry>)
    ensures
        r@ == each_with(paths.deep_view(), RegistryEntryView::unconditional()),
{
    let ghost all = paths.deep_view();
    let mut paths = paths;
    let mut out: Dict<GameRegistryEntry> = Dict::new();
    while paths.len() > 0
        invariant
            paths.len() <= all.len(),
            forall|i: int| 0 <= i < paths.len() ==> (#[trigger] paths[i])@ == all[i],
            forall|path: Seq<char>|
                out@.dom().contains(path) <==> exists|i: int|
                    paths.len() <= i < all.len() && all[i] == path,
            forall|path: Seq<char>|
                out@.dom().contains(path) ==> out@[path] == RegistryEntryView::unconditional(),
        decreases paths.len(),
    {
        let ghost rest = paths.len() - 1;
        let ghost before = out@;
        match paths.pop() {
            Some(path) => {
                assert(path@ == all[rest]);
                out.insert(path, GameRegistryEntry::default());
                assert forall|path: Seq<char>|
                    out@.dom().contains(path) <==> exists|i: int|
                        rest <= i < all.len() && all[i] == path by {
                    if before.dom().contains(path) {
                        let i = choose|i: int| rest + 1 <= i < all.len() && all[i] == path;
                        assert(rest <= i < all.len() && all[i] == path);
                    }
                    if exists|i: int| rest <= i < all.len() && all[i] == path {
                        let i = choose|i: int| rest <= i < all.len() && all[i] == path;
                        if i != rest {
                            assert(rest + 1 <= i < all.len() && all[i] == path);
                        }
                    }
                }
            },
            None => {},
        }
    }
    assert(out@ =~= each_with(all, RegistryEntryView::unconditional()));
    out
}

/// Makes the game that a secondary manifest in `folder` names, given what
/// the manifest held under its title before.
pub fn incorporate_game(existing: Option<Game>, game: Game, folder: &Option<String>) -> (r: Game)
    ensures
        r@ == incorporated_game(
            match existing {
                Some(g) => Some(g@),
                None => None,
            },
            game@,
            text_of(*folder),
        ),
{
    let mut game = game;
    game.normalize_relative_paths();
    let ghost normal = game@;
    match existing {
        Some(standard) => {
            let mut standard = standard;
            let ghost old_standard = standard@;
            standard.files.extend(game.files);
            standard.registry.extend(game.registry);
            match folder {
                Some(folder) => {
                    standard.install_dir.insert(folder.clone(), GameInstallDirEntry {  });
                },
                None => {},
            }
            standard.install_dir.extend(game.install_dir);
            if standard.steam.is_empty() {
                standard.steam = game.steam;
            }
            if standard.gog.is_empty() {
                standard.gog = game.gog;
            }
            if standard.id.flatpak.is_none() {
                standard.id.flatpak = game.id.flatpak;
            }
            standard.id.gog_extra.extend(&game.id.gog_extra);
            standard.id.steam_extra.extend(&game.id.steam_extra);
            proof {
                let want = merged_game(old_standard, normal, text_of(*folder));
                assert(standard@.install_dir =~= want.install_dir);
                assert(standard@.id == want.id);
                assert(standard@ == want);
            }
            standard
        },
        None => {
            match folder {
                Some(folder) => {
                    game.install_dir.insert(folder.clone(), GameInstallDirEntry {  });
                },
                None => {},
            }
            proof {
                let want = added_game(normal, text_of(*folder));
                assert(game@.install_dir =~= want.install_dir);
            }
            game
        },
    }
}

impl Manifest {
    /// Takes in a custom game, in place of the game of that name if there
    /// is one.
    pub fn add_custom_game(&mut self, custom: CustomGame)
        ensures
            final(self)@ == with_custom_game(old(self)@, custom@),
    {
        let existing = self.0.remove(custom.name.as_str());
        let ghost known = lookup(old(self)@, custom.name@);
        let (install_dir, steam, gog, id) = match existing {
            Some(game) => (game.install_dir, game.steam, game.gog, game.id),
            None => {
                let empty: Dict<GameInstallDirEntry> = Dict::new();
                assert(empty@.dom() =~= Set::<Seq<char>>::empty());
                (empty, Default::default(), Default::default(), Default::default())
            },
        };
        let game = Game {
            alias: custom.alias,
            files: unconditional_files(custom.files),
            install_dir,
            registry: unconditional_registry(custom.registry),
            steam,
            gog,
            id,
            // A game that the user has customised is backed up even where
            // a store keeps its saves: what the manifest said of clouds is
            // not carried over.
            cloud: CloudMetadata::default(),
        };
        assert(game@ == custom_entry(known, custom@));
        self.0.insert(custom.name, game);
        assert(self@ =~= with_custom_game(old(self)@, custom@));
    }

    /// Takes in a secondary manifest that lies in the folder `folder`.
    pub fn incorporate_secondary_manifest(&mut self, folder: Option<String>, secondary: Manifest)
        ensures
            final(self)@ == with_secondary(old(self)@, secondary@, text_of(folder)),
    {
        let ghost keys = secondary.0.keys();
        let ghost values = secondary.0.values();
        let ghost dir = text_of(folder);
        let mut entries = secondary.0.into_entries();
        proof {
            lemma_ascending_distinct(keys);
        }
        while entries.len() > 0
            invariant
                secondary.0.listed(),
                keys == secondary.0.keys(),
                values == secondary.0.values(),
                dir == text_of(folder),
                keys.no_duplicates(),
                entries.len() <= keys.len(),
                forall|i: int|
                    0 <= i < entries.len() ==> (#[trigger] entries[i]).0@ == keys[i] && entries[i].1@
                        == values[i],
                forall|k: Seq<char>|
                    self@.dom().contains(k) <==> old(self)@.dom().contains(k) || exists|i: int|
                        entries.len() <= i < keys.len() && keys[i] == k,
                forall|i: int|
                    entries.len() <= i < keys.len() ==> self@[#[trigger] keys[i]]
                        == incorporated_game(lookup(old(self)@, keys[i]), values[i], dir),
                forall|k: Seq<char>|
                    old(self)@.dom().contains(k) && !(exists|i: int|
                        entries.len() <= i < keys.len() && keys[i] == k) ==> self@[k] == old(
                        self,
                    )@[k],
            decreases entries.len(),
        {
            let ghost rest = entries.len() - 1;
            let ghost before = self@;
            match entries.pop() {
                Some((name, game)) => {
                    assert(name@ == keys[rest] && game@ == values[rest]);
                    let existing = self.0.remove(name.as_str());
                    proof {
                        assert(!(exists|i: int| rest + 1 <= i < keys.len() && keys[i] == name@)) by {
                            if exists|i: int| rest + 1 <= i < keys.len() && keys[i] == name@ {
                                let i = choose|i: int| rest + 1 <= i < keys.len() && keys[i] == name@;
                                assert(keys[i] == keys[rest]);
                            }
                        }
                        assert(before.dom().contains(name@) == old(self)@.dom().contains(name@));
                    }
                    let merged = incorporate_game(existing, game, &folder);
                    self.0.insert(name, merged);
                    proof {
                        assert forall|k: Seq<char>|
                            self@.dom().contains(k) <==> old(self)@.dom().contains(k) || exists|
                                i: int,
                            |
                                rest <= i < keys.len() && keys[i] == k by {
                            if before.dom().contains(k) && !old(self)@.dom().contains(k) {
                                let i = choose|i: int| rest + 1 <= i < keys.len() && keys[i] == k;
                                assert(rest <= i < keys.len() && keys[i] == k);
                            }
                            if exists|i: int| rest <= i < keys.len() && keys[i] == k {
                                let i = choose|i: int| rest <= i < keys.len() && keys[i] == k;
                                if i != rest {
                                    assert(rest + 1 <= i < keys.len() && keys[i] == k);
                                }
                            }
                        }
                        assert forall|k: Seq<char>|
                            old(self)@.dom().contains(k) && !(exists|i: int|
                                rest <= i < keys.len() && keys[i] == k) implies self@[k] == old(
                            self,
                        )@[k] by {
                            assert(k != keys[rest]);
                            assert(!(exists|i: int| rest + 1 <= i < keys.len() && keys[i] == k)) by {
                                if exists|i: int| rest + 1 <= i < keys.len() && keys[i] == k {
                                    let i = choose|i: int|
                                        rest + 1 <= i < keys.len() && keys[i] == k;
                                    assert(rest <= i < keys.len() && keys[i] == k);
                                }
                            }
                        }
                    }
                },
                None => {},
            }
        }
        proof {
            let a = self@;
            let b = with_secondary(old(self)@, secondary@, dir);
            assert forall|k: Seq<char>| a.dom().contains(k) == b.dom().contains(k) by {
                if secondary@.dom().contains(k) {
                    assert(keys.to_set().contains(k));
                    assert(keys.contains(k));
                    let i = keys.index_of(k);
                    assert(0 <= i < keys.len() && keys[i] == k);
                }
                if exists|i: int| 0 <= i < keys.len() && keys[i] == k {
                    let i = choose|i: int| 0 <= i < keys.len() && keys[i] == k;
                    assert(secondary@.dom().contains(keys[i]));
                }
            }
            assert forall|k: Seq<char>| a.dom().contains(k) implies a[k] == b[k] by {
                if secondary@.dom().contains(k) {
                    assert(keys.to_set().contains(k));
                    assert(keys.contains(k));
                    let i = keys.index_of(k);
                    assert(0 <= i < keys.len() && keys[i] == k);
                    assert(secondary@[keys[i]] == values[i]);
                } else {
                    if exists|i: int| 0 <= i < keys.len() && keys[i] == k {
                        let i = choose|i: int| 0 <= i < keys.len() && keys[i] == k;
                        assert(secondary@.dom().contains(keys[i]));
                    }
                }
            }
            assert(a =~= b);
        }
    }
}

/// A secondary manifest as it was read: the document, and the name of the
/// folder that it lies in, where that folder has one.
#[derive(Clone, Debug, PartialEq, Eq)]
pub struct SecondaryManifest {
    pub folder: Option<String>,
    pub manifest: Manifest,
}

/// A secondary manifest as a mathematical value.
pub struct SecondaryView {
    pub folder: Option<Seq<char>>,
    pub manifest: Map<Seq<char>, GameView>,
}

impl View for SecondaryManifest {
    type V = SecondaryView;

    open spec fn view(&self) -> SecondaryView {
        SecondaryView { folder: text_of(self.folder), manifest: self.manifest@ }
    }
}

/// The secondary manifests of a list, each as a mathematical value.
pub open spec fn secondary_views(list: Seq<SecondaryManifest>) -> Seq<SecondaryView> {
    list.map_values(|s: SecondaryManifest| s@)
}

/// The custom games of a list, each as a mathematical value.
pub open spec fn custom_views(list: Seq<CustomGame>) -> Seq<CustomGameView> {
    list.map_values(|c: CustomGame| c@)
}

/// A manifest after it has taken in the first `n` of the secondary
/// manifests, one after the other.
pub open spec fn with_secondaries(
    doc: Map<Seq<char>, GameView>,
    list: Seq<SecondaryView>,
    n: nat,
) -> Map<Seq<char>, GameView>
    decreases n,
{
    if n == 0 {
        doc
    } else {
        with_secondary(
            with_secondaries(doc, list, (n - 1) as nat),
            list[n - 1].manifest,
            list[n - 1].folder,
        )
    }
}

/// A manifest after it has taken in the first `n` of the custom games, one
/// after the other, but for those that are to be left out.
pub open spec fn with_custom_games(
    doc: Map<Seq<char>, GameView>,
    list: Seq<CustomGameView>,
    n: nat,
) -> Map<Seq<char>, GameView>
    decreases n,
{
    if n == 0 {
        doc
    } else if list[n - 1].ignore {
        with_custom_games(doc, list, (n - 1) as nat)
    } else {
        with_custom_game(with_custom_games(doc, list, (n - 1) as nat), list[n - 1])
    }
}

/// The manifest that is in force: the primary manifest, or nothing where
/// it is switched off; then the secondary manifests in their order; then
/// the custom games in theirs.
pub open spec fn extended(
    primary: Map<Seq<char>, GameView>,
    enable: bool,
    secondary: Seq<SecondaryView>,
    custom_games: Seq<CustomGameView>,
) -> Map<Seq<char>, GameView> {
    with_custom_games(
        with_secondaries(
            if enable {
                primary
            } else {
                Map::empty()
            },
            secondary,
            secondary.len(),
        ),
        custom_games,
        custom_games.len(),
    )
}

/// The items of a vector in the opposite order.
pub fn reversed<T>(items: Vec<T>) -> (r: Vec<T>)
    ensures
        r@ == items@.reverse(),
{
    let ghost all = items@;
    let mut items = items;
    let mut r: Vec<T> = Vec::new();
    while items.len() > 0
        invariant
            items.len() + r.len() == all.len(),
            forall|i: int| 0 <= i < items.len() ==> items[i] == all[i],
            forall|i: int| 0 <= i < r.len() ==> r[i] == all[all.len() - 1 - i],
        decreases items.len(),
    {
        match items.pop() {
            Some(item) => {
                r.push(item);
            },
            None => {},
        }
    }
    assert(r@ =~= all.reverse());
    r
}

impl Manifest {
    /// Makes the manifest the one that is in force. `enable` tells whether
    /// the primary manifest counts; `secondary` holds the secondary
    /// manifests in the order in which they apply: those of the
    /// configuration before those found under the roots.
    pub fn incorporate_extensions(
        &mut self,
        enable: bool,
        secondary: Vec<SecondaryManifest>,
        custom_games: Vec<CustomGame>,
    )
        ensures
            final(self)@ == extended(
                old(self)@,
                enable,
                secondary_views(secondary@),
                custom_views(custom_games@),
            ),
    {
        if !enable {
            self.0 = Dict::new();
        }
        let ghost start = self@;
        let ghost secs = secondary_views(secondary@);
        let ghost n = secondary.len();
        let mut pending = reversed(secondary);
        while pending.len() > 0
            invariant
                pending.len() <= n,
                secs.len() == n,
                forall|i: int|
                    0 <= i < pending.len() ==> (#[trigger] pending[i])@ == secs[n - 1 - i],
                self@ == with_secondaries(start, secs, (n - pending.len()) as nat),
            decreases pending.len(),
        {
            match pending.pop() {
                Some(next) => {
                    self.incorporate_secondary_manifest(next.folder, next.manifest);
                },
                None => {},
            }
        }
        let ghost middle = self@;
        let ghost customs = custom_views(custom_games@);
        let ghost m = custom_games.len();
        let mut pending = reversed(custom_games);
        while pending.len() > 0
            invariant
                pending.len() <= m,
                customs.len() == m,
                forall|i: int|
                    0 <= i < pending.len() ==> (#[trigger] pending[i])@ == customs[m - 1 - i],
                self@ == with_custom_games(middle, customs, (m - pending.len()) as nat),
            decreases pending.len(),
        {
            match pending.pop() {
                Some(custom) => {
                    if !custom.ignore {
                        self.add_custom_game(custom);
                    }
                },
                None => {},
            }
        }
    }

    /// The manifest that is in force, made from this one.
    pub fn with_extensions(
        self,
        enable: bool,
        secondary: Vec<SecondaryManifest>,
        custom_games: Vec<CustomGame>,
    ) -> (r: Manifest)
        ensures
            r@ == extended(
                self@,
                enable,
                secondary_views(secondary@),
                custom_views(custom_games@),
            ),
    {
        let mut r = self;
        r.incorporate_extensions(enable, secondary, custom_games);
        r
    }
}

/// Where a secondary manifest names a game that the manifest holds, the
/// files and the registry keys of the merged game are those of both; where
/// both name a path or a key, the entry of the secondary manifest stays.
pub proof fn lemma_secondary_overrides(
    doc: Map<Seq<char>, GameView>,
    secondary: Map<Seq<char>, GameView>,
    folder: Option<Seq<char>>,
    title: Seq<char>,
)
    requires
        doc.dom().contains(title),
        secondary.dom().contains(title),
    ensures
        ({
            let merged = with_secondary(doc, secondary, folder)[title];
            let ours = doc[title];
            let theirs = normalized_game(secondary[title]);
            &&& with_secondary(doc, secondary, folder).dom().contains(title)
            &&& merged.files.dom() == ours.files.dom().union(theirs.files.dom())
            &&& merged.registry.dom() == ours.registry.dom().union(theirs.registry.dom())
            &&& forall|path: Seq<char>| #[trigger]
                theirs.files.dom().contains(path) ==> merged.files[path] == theirs.files[path]
            &&& forall|path: Seq<char>|
                ours.files.dom().contains(path) && !theirs.files.dom().contains(path)
                    ==> #[trigger] merged.files[path] == ours.files[path]
            &&& forall|key: Seq<char>| #[trigger]
                theirs.registry.dom().contains(key) ==> merged.registry[key]
                    == theirs.registry[key]
            &&& forall|key: Seq<char>|
                ours.registry.dom().contains(key) && !theirs.registry.dom().contains(key)
                    ==> #[trigger] merged.registry[key] == ours.registry[key]
        }),
{
    let merged = with_secondary(doc, secondary, folder)[title];
    let ours = doc[title];
    let theirs = normalized_game(secondary[title]);
    assert(merged.files.dom() =~= ours.files.dom().union(theirs.files.dom()));
    assert(merged.registry.dom() =~= ours.registry.dom().union(theirs.registry.dom()));
}

/// Where a secondary manifest names a game that the manifest does not
/// hold, the manifest takes the game in as it stands there, with its paths
/// in their normal form, and the folder of the secondary manifest, where it
/// has a name, is among the hints of where the game is installed.
pub proof fn lemma_new_title_is_hinted(
    doc: Map<Seq<char>, GameView>,
    secondary: Map<Seq<char>, GameView>,
    folder: Option<Seq<char>>,
    title: Seq<char>,
)
    requires
        !doc.dom().contains(title),
        secondary.dom().contains(title),
    ensures
        with_secondary(doc, secondary, folder).dom().contains(title),
        with_secondary(doc, secondary, folder)[title] == added_game(
            normalized_game(secondary[title]),
            folder,
        ),
        folder matches Some(name) ==> with_secondary(doc, secondary, folder)[title].install_dir
            == secondary[title].install_dir.insert(name),
        folder is None ==> with_secondary(doc, secondary, folder)[title].install_dir
            == secondary[title].install_dir,
{
}

/// A custom game that is not left out has, in the manifest in force, no
/// store that keeps its saves in a cloud, whatever the manifests said of the
/// game of that name.
pub proof fn lemma_custom_game_has_no_cloud(
    doc: Map<Seq<char>, GameView>,
    list: Seq<CustomGameView>,
    n: nat,
    i: int,
)
    requires
        0 <= i < n <= list.len(),
        !list[i].ignore,
    ensures
        with_custom_games(doc, list, n).dom().contains(list[i].name),
        with_custom_games(doc, list, n)[list[i].name].cloud == CloudMetadata::none(),
    decreases n,
{
    if i < n - 1 {
        lemma_custom_game_has_no_cloud(doc, list, (n - 1) as nat, i);
    }
}

} // verus!
