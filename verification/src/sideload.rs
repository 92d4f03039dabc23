//! Games that were added to the Heroic launcher by hand: what its library
//! file says of them.

use vstd::prelude::*;
use crate::dict::Dict;
use crate::manifest::{lowercase, os_of_platform, Os};
use crate::text::{str_eq, text_of};
use crate::tree::{json_document, Node, NodeView};

verus! {

/// Where the library file lies under the launcher's folder.
pub const PATH: &'static str = "sideload_apps/library.json";

/// How a game was installed.
#[derive(Clone, Debug, PartialEq, Eq)]
pub struct Install {
    pub platform: Option<String>,
}

/// A game of the library.
#[derive(Clone, Debug, PartialEq, Eq)]
pub struct Game {
    pub app_name: String,
    pub title: String,
    pub install: Install,
    pub folder_name: Option<String>,
}

/// The library file.
#[derive(Clone, Debug, PartialEq, Eq)]
pub struct Data {
    pub games: Vec<Game>,
}

/// A game of the library as a mathematical value.
pub struct GameView {
    pub app_name: Seq<char>,
    pub title: Seq<char>,
    pub platform: Option<Seq<char>>,
    pub folder_name: Option<Seq<char>>,
}

impl View for Game {
    type V = GameView;

    open spec fn view(&self) -> GameView {
        GameView {
            app_name: self.app_name@,
            title: self.title@,
            platform: text_of(self.install.platform),
            folder_name: text_of(self.folder_name),
        }
    }
}

/// The text that a field holds which may be left out or null. The outer
/// option tells whether the field is valid.
pub open spec fn optional_text(node: NodeView, key: Seq<char>) -> Option<Option<Seq<char>>> {
    match node.child(key) {
        None => Some(None),
        Some(NodeView::Text(s)) => Some(Some(s)),
        Some(_) => None,
    }
}

/// The text that a field holds which has to be there.
pub open spec fn required_text(node: NodeView, key: Seq<char>) -> Option<Seq<char>> {
    match node.field(key) {
        Some(NodeView::Text(s)) => Some(s),
        _ => None,
    }
}

/// The game that a node stands for. It has to name the game and its
/// title, and to say how the game was installed, if only with nothing.
pub open spec fn read_game(node: NodeView) -> Option<GameView> {
    if required_text(node, "app_name"@) is Some && required_text(node, "title"@) is Some
        && node.field("install"@) is Some && node.field("install"@)->0 is Mapping && optional_text(
        node.field("install"@)->0,
        "platform"@,
    ) is Some && optional_text(node, "folder_name"@) is Some {
        Some(
            GameView {
                app_name: required_text(node, "app_name"@)->0,
                title: required_text(node, "title"@)->0,
                platform: optional_text(node.field("install"@)->0, "platform"@)->0,
                folder_name: optional_text(node, "folder_name"@)->0,
            },
        )
    } else {
        None
    }
}

impl View for Data {
    type V = Seq<GameView>;

    open spec fn view(&self) -> Seq<GameView> {
        self.games@.map_values(|g: Game| g@)
    }
}

/// The games of the first `n` items; none where an item stands for no
/// game.
pub open spec fn games_upto(items: Seq<NodeView>, n: nat) -> Option<Seq<GameView>>
    decreases n,
{
    if n == 0 {
        Some(Seq::empty())
    } else {
        match (games_upto(items, (n - 1) as nat), read_game(items[n - 1])) {
            (Some(games), Some(game)) => Some(games.push(game)),
            _ => None,
        }
    }
}

/// The games of a library document; none where the document is no
/// library.
pub open spec fn read_library(node: NodeView) -> Option<Seq<GameView>> {
    match node.field("games"@) {
        Some(NodeView::List(items)) => games_upto(items, items.len()),
        _ => None,
    }
}

/// The first `n` games by their names. Of two games with one name the
/// later one stays.
pub open spec fn by_name(games: Seq<GameView>, n: nat) -> Map<Seq<char>, GameView>
    decreases n,
{
    if n == 0 {
        Map::empty()
    } else {
        by_name(games, (n - 1) as nat).insert(games[n - 1].app_name, games[n - 1])
    }
}

/// The games of the text of a library file by their names. A text that is
/// no library holds no games.
pub open spec fn library_of(content: Seq<char>) -> Map<Seq<char>, GameView> {
    match json_document(content) {
        Some(node) => match read_library(node) {
            Some(games) => by_name(games, games.len()),
            None => Map::empty(),
        },
        None => Map::empty(),
    }
}

proof fn lemma_games_stay_invalid(items: Seq<NodeView>, n: nat, m: nat)
    requires
        n <= m,
        games_upto(items, n) is None,
    ensures
        games_upto(items, m) is None,
    decreases m,
{
    if n < m {
        lemma_games_stay_invalid(items, n, (m - 1) as nat);
    }
}

fn decode_optional_text(node: &Node, key: &str) -> (r: Option<Option<String>>)
    ensures
        r is Some <==> optional_text(node@, key@) is Some,
        r matches Some(text) ==> text_of(text) == optional_text(node@, key@)->0,
{
    match node.child(key) {
        None => Some(None),
        Some(Node::Text(s)) => Some(Some(s.clone())),
        Some(_) => None,
    }
}

fn decode_required_text(node: &Node, key: &str) -> (r: Option<String>)
    ensures
        text_of(r) == required_text(node@, key@),
{
    match node.field(key) {
        Some(Node::Text(s)) => Some(s.clone()),
        _ => None,
    }
}

/// Reads a game of the library from its node.
pub fn decode_game(node: &Node) -> (r: Option<Game>)
    ensures
        r is Some <==> read_game(node@) is Some,
        r matches Some(game) ==> game@ == read_game(node@)->0,
{
    let app_name = match decode_required_text(node, "app_name") {
        Some(x) => x,
        None => {
            return None;
        },
    };
    let title = match decode_required_text(node, "title") {
        Some(x) => x,
        None => {
            return None;
        },
    };
    let install = match node.field("install") {
        Some(install) => install,
        None => {
            return None;
        },
    };
    proof {
        install.lemma_parts();
    }
    let platform = match install {
        Node::Mapping(_) => match decode_optional_text(install, "platform") {
            Some(x) => x,
            None => {
                return None;
            },
        },
        _ => {
            return None;
        },
    };
    let folder_name = match decode_optional_text(node, "folder_name") {
        Some(x) => x,
        None => {
            return None;
        },
    };
    Some(Game { app_name, title, install: Install { platform }, folder_name })
}

/// Reads a library document.
#[verifier::loop_isolation(false)]
pub fn decode_library(node: &Node) -> (r: Option<Data>)
    ensures
        r is Some <==> read_library(node@) is Some,
        r matches Some(data) ==> data@ == read_library(node@)->0,
{
    match node.field("games") {
        Some(list) => {
            proof {
                list.lemma_parts();
            }
            match list {
                Node::List(items) => {
                    let ghost views = list@->List_0;
                    let mut games: Vec<Game> = Vec::new();
                    let mut i: usize = 0;
                    while i < items.len()
                        invariant
                            i <= items.len(),
                            views.len() == items.len(),
                            forall|j: int| 0 <= j < items.len() ==> #[trigger] views[j] == items[j]@,
                            games_upto(views, i as nat) == Some(games@.map_values(|g: Game| g@)),
                        decreases items.len() - i,
                    {
                        match decode_game(&items[i]) {
                            Some(game) => {
                                let ghost before = games@.map_values(|g: Game| g@);
                                games.push(game);
                                assert(games@.map_values(|g: Game| g@) =~= before.push(game@));
                            },
                            None => {
                                proof {
                                    assert(games_upto(views, (i + 1) as nat) is None);
                                    lemma_games_stay_invalid(views, (i + 1) as nat, views.len());
                                }
                                return None;
                            },
                        }
                        i += 1;
                    }
                    Some(Data { games })
                },
                _ => None,
            }
        },
        None => None,
    }
}

/// The games of a library by their names.
pub fn index_library(data: Data) -> (r: Dict<Game>)
    ensures
        r@ == by_name(data@, data@.len()),
{
    let ghost all = data@;
    let ghost n = data.games.len();
    let mut pending = crate::merge::reversed(data.games);
    let mut out: Dict<Game> = Dict::new();
    while pending.len() > 0
        invariant
            pending.len() <= n,
            all.len() == n,
            forall|i: int| 0 <= i < pending.len() ==> (#[trigger] pending[i])@ == all[n - 1 - i],
            out@ == by_name(all, (n - pending.len()) as nat),
        decreases pending.len(),
    {
        match pending.pop() {
            Some(game) => {
                out.insert(game.app_name.clone(), game);
            },
            None => {},
        }
    }
    out
}

/// The games of a library file by their names, read from the text of the
/// file. A file that cannot be made sense of counts as an empty library.
pub fn get_library(content: &str) -> (r: Dict<Game>)
    ensures
        r@ == library_of(content@),
{
    match Node::from_json(content) {
        Some(node) => match decode_library(&node) {
            Some(data) => index_library(data),
            None => Dict::new(),
        },
        None => Dict::new(),
    }
}

/// What is known of a game that a launcher has installed.
#[derive(Clone, Debug, PartialEq, Eq, Hash)]
pub struct LauncherGame {
    pub install_dir: Option<String>,
    pub prefix: Option<String>,
    pub platform: Option<Os>,
}

/// The operating system that a platform of the library stands for.
pub open spec fn platform_os(platform: Option<Seq<char>>) -> Option<Os> {
    match platform {
        Some(name) => Some(os_of_platform(lowercase(name))),
        None => None,
    }
}

/// What is known of a game of the library, once the folder of its Wine
/// prefix has been looked for.
pub fn launcher_game(game: Game, prefix: Option<String>) -> (r: LauncherGame)
    ensures
        r.install_dir == game.folder_name,
        r.prefix == prefix,
        r.platform == platform_os(text_of(game.install.platform)),
{
    let platform = match &game.install.platform {
        Some(name) => Some(Os::from(name.as_str())),
        None => None,
    };
    LauncherGame { install_dir: game.folder_name, prefix, platform }
}

/// A launcher's game as a mathematical value.
pub struct LauncherGameView {
    pub install_dir: Option<Seq<char>>,
    pub prefix: Option<Seq<char>>,
    pub platform: Option<Os>,
}

impl View for LauncherGame {
    type V = LauncherGameView;

    open spec fn view(&self) -> LauncherGameView {
        LauncherGameView {
            install_dir: text_of(self.install_dir),
            prefix: text_of(self.prefix),
            platform: self.platform,
        }
    }
}

fn same_text(a: &Option<String>, b: &Option<String>) -> (r: bool)
    ensures
        r == (text_of(*a) == text_of(*b)),
{
    match (a, b) {
        (Some(a), Some(b)) => str_eq(a.as_str(), b.as_str()),
        (None, None) => true,
        _ => false,
    }
}

impl LauncherGame {
    /// Whether two games are known alike.
    pub fn same(&self, other: &LauncherGame) -> (r: bool)
        ensures
            r == (self@ == other@),
    {
        let platform = match (&self.platform, &other.platform) {
            (Some(a), Some(b)) => *a == *b,
            (None, None) => true,
            _ => false,
        };
        platform && same_text(&self.install_dir, &other.install_dir) && same_text(
            &self.prefix,
            &other.prefix,
        )
    }
}

/// The installations of one game that a launcher knows.
#[derive(Clone, Debug, PartialEq, Eq)]
pub struct LauncherGames(pub Vec<LauncherGame>);

impl View for LauncherGames {
    type V = Set<LauncherGameView>;

    open spec fn view(&self) -> Set<LauncherGameView> {
        Set::new(|g: LauncherGameView| exists|i: int| 0 <= i < self.0.len() && self.0[i]@ == g)
    }
}

impl LauncherGames {
    /// Adds an installation, unless one known alike is there.
    pub fn insert(&mut self, game: LauncherGame)
        ensures
            final(self)@ == old(self)@.insert(game@),
    {
        let mut i: usize = 0;
        while i < self.0.len()
            invariant
                i <= self.0.len(),
                *self == *old(self),
                forall|j: int| 0 <= j < i ==> self.0[j]@ != game@,
            decreases self.0.len() - i,
        {
            if self.0[i].same(&game) {
                assert(self@.contains(game@));
                assert(self@.insert(game@) =~= self@);
                return ;
            }
            i += 1;
        }
        let ghost before = self.0@;
        self.0.push(game);
        assert forall|g: LauncherGameView| self@.contains(g) == old(self)@.insert(game@).contains(
            g,
        ) by {
            if exists|i: int| 0 <= i < before.len() && before[i]@ == g {
                let i = choose|i: int| 0 <= i < before.len() && before[i]@ == g;
                assert(self.0[i]@ == g);
            }
            if exists|i: int| 0 <= i < self.0.len() && self.0[i]@ == g {
                let i = choose|i: int| 0 <= i < self.0.len() && self.0[i]@ == g;
                if i < before.len() {
                    assert(before[i]@ == g);
                }
            }
            assert(self.0[before.len() as int]@ == game@);
        }
        assert(self@ =~= old(self)@.insert(game@));
    }
}

/// A game of the library with what the caller found out about it: the
/// title by which the manifest knows it, if it knows it, and the folder of
/// its Wine prefix, if there is one.
#[derive(Clone, Debug, PartialEq, Eq)]
pub struct Finding {
    pub title: Option<String>,
    pub game: Game,
    pub prefix: Option<String>,
}

/// A finding as a mathematical value.
pub struct FindingView {
    pub title: Option<Seq<char>>,
    pub game: LauncherGameView,
}

impl View for Finding {
    type V = FindingView;

    open spec fn view(&self) -> FindingView {
        FindingView {
            title: text_of(self.title),
            game: LauncherGameView {
                install_dir: self.game@.folder_name,
                prefix: text_of(self.prefix),
                platform: platform_os(self.game@.platform),
            },
        }
    }
}

/// The installations by title that the first `n` findings make known.
/// A game that the manifest does not know is passed over.
pub open spec fn scanned(findings: Seq<FindingView>, n: nat) -> Map<
    Seq<char>,
    Set<LauncherGameView>,
>
    decreases n,
{
    if n == 0 {
        Map::empty()
    } else {
        let before = scanned(findings, (n - 1) as nat);
        match findings[n - 1].title {
            Some(title) => before.insert(
                title,
                (if before.dom().contains(title) {
                    before[title]
                } else {
                    Set::empty()
                }).insert(findings[n - 1].game),
            ),
            None => before,
        }
    }
}

/// Gathers the games of the library under the titles by which the manifest
/// knows them.
pub fn scan(findings: Vec<Finding>) -> (r: Dict<LauncherGames>)
    ensures
        r@ == scanned(findings@.map_values(|f: Finding| f@), findings@.len()),
{
    let ghost all = findings@.map_values(|f: Finding| f@);
    let ghost n = findings.len();
    let mut pending = crate::merge::reversed(findings);
    let mut out: Dict<LauncherGames> = Dict::new();
    while pending.len() > 0
        invariant
            pending.len() <= n,
            all.len() == n,
            forall|i: int| 0 <= i < pending.len() ==> (#[trigger] pending[i])@ == all[n - 1 - i],
            out@ == scanned(all, (n - pending.len()) as nat),
        decreases pending.len(),
    {
        match pending.pop() {
            Some(finding) => {
                let ghost view = finding@;
                match finding.title {
                    Some(title) => {
                        let mut games = match out.remove(title.as_str()) {
                            Some(games) => games,
                            None => {
                                let empty = LauncherGames(Vec::new());
                                assert(empty@ =~= Set::<LauncherGameView>::empty());
                                empty
                            },
                        };
                        let game = launcher_game(finding.game, finding.prefix);
                        assert(game@ == view.game);
                        games.insert(game);
                        out.insert(title, games);
                        assert(out@ =~= scanned(all, (n - pending.len()) as nat));
                    },
                    None => {},
                }
            },
            None => {},
        }
    }
    out
}

} // verus!
