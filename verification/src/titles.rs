//! What a manifest tells of its titles: which are other names of which,
//! and which games can be looked for.

use vstd::prelude::*;
use crate::dict::{ascending, Dict};
use crate::manifest::{Game, GameView, Manifest};
use crate::text::{text_before, text_of};

verus! {

/// How many aliases are followed from a title at most. The number guards
/// against chains that never end; it has no meaning beyond that.
pub const ALIAS_HOPS: usize = 100;

/// The title at the end of the chain of aliases that leads on from
/// `title`, which has been reached after `hops` steps. There is none where
/// the chain leaves the manifest or does not end within the limit, and
/// none for a title that is no alias.
pub open spec fn resolved(doc: Map<Seq<char>, GameView>, title: Seq<char>, hops: nat) -> Option<
    Seq<char>,
>
    decreases ALIAS_HOPS - hops,
{
    if hops >= ALIAS_HOPS || !doc.dom().contains(title) {
        None
    } else {
        match doc[title].alias {
            Some(next) => resolved(doc, next, hops + 1),
            None => if hops == 0 {
                None
            } else {
                Some(title)
            },
        }
    }
}

/// Each alias of a manifest with the title that it stands for in the end.
pub open spec fn aliases_of(doc: Map<Seq<char>, GameView>) -> Map<Seq<char>, Seq<char>> {
    Map::new(
        |title: Seq<char>| doc.dom().contains(title) && resolved(doc, title, 0) is Some,
        |title: Seq<char>| resolved(doc, title, 0)->0,
    )
}

/// The title that stands `n` steps along the chain of aliases from
/// `title`; none where the chain ends or leaves the manifest before.
pub open spec fn hop(doc: Map<Seq<char>, GameView>, title: Seq<char>, n: nat) -> Option<Seq<char>>
    decreases n,
{
    if n == 0 {
        if doc.dom().contains(title) {
            Some(title)
        } else {
            None
        }
    } else {
        match hop(doc, title, (n - 1) as nat) {
            Some(before) => match doc[before].alias {
                Some(next) => if doc.dom().contains(next) {
                    Some(next)
                } else {
                    None
                },
                None => None,
            },
            None => None,
        }
    }
}

/// Resolving a title is resolving the title that stands some steps along
/// its chain, with those steps counted.
pub proof fn lemma_resolved_along_chain(
    doc: Map<Seq<char>, GameView>,
    title: Seq<char>,
    n: nat,
    at: Seq<char>,
)
    requires
        n <= ALIAS_HOPS,
        hop(doc, title, n) == Some(at),
    ensures
        resolved(doc, title, 0) == resolved(doc, at, n),
    decreases n,
{
    if n > 0 {
        let before = hop(doc, title, (n - 1) as nat)->0;
        lemma_resolved_along_chain(doc, title, (n - 1) as nat, before);
        lemma_hop_stays_inside(doc, title, (n - 1) as nat);
    }
}

/// A title that a chain reaches is a title of the manifest.
pub proof fn lemma_hop_stays_inside(doc: Map<Seq<char>, GameView>, title: Seq<char>, n: nat)
    ensures
        hop(doc, title, n) matches Some(at) ==> doc.dom().contains(at),
    decreases n,
{
    if n > 0 {
        lemma_hop_stays_inside(doc, title, (n - 1) as nat);
    }
}

/// A chain of at least one and fewer than the limit of aliases that ends
/// in a title that is no alias resolves to that title.
pub proof fn lemma_chain_resolves(
    doc: Map<Seq<char>, GameView>,
    title: Seq<char>,
    n: nat,
    end: Seq<char>,
)
    requires
        1 <= n < ALIAS_HOPS,
        hop(doc, title, n) == Some(end),
        doc[end].alias is None,
    ensures
        resolved(doc, title, 0) == Some(end),
        aliases_of(doc).dom().contains(title),
        aliases_of(doc)[title] == end,
{
    lemma_resolved_along_chain(doc, title, n, end);
    lemma_hop_stays_inside(doc, title, n);
    lemma_hop_stays_inside(doc, title, 0);
    lemma_chain_starts_inside(doc, title, n);
}

/// A chain that reaches a title starts at a title of the manifest.
pub proof fn lemma_chain_starts_inside(doc: Map<Seq<char>, GameView>, title: Seq<char>, n: nat)
    requires
        hop(doc, title, n) is Some,
    ensures
        doc.dom().contains(title),
    decreases n,
{
    if n > 0 {
        lemma_chain_starts_inside(doc, title, (n - 1) as nat);
    }
}

/// A chain that goes on for as many aliases as the limit, as every chain
/// does that runs in a circle, resolves to nothing.
pub proof fn lemma_long_chain_resolves_to_nothing(
    doc: Map<Seq<char>, GameView>,
    title: Seq<char>,
    at: Seq<char>,
)
    requires
        hop(doc, title, (ALIAS_HOPS - 1) as nat) == Some(at),
        doc[at].alias is Some,
    ensures
        resolved(doc, title, 0) is None,
        !aliases_of(doc).dom().contains(title),
{
    lemma_resolved_along_chain(doc, title, (ALIAS_HOPS - 1) as nat, at);
    lemma_hop_stays_inside(doc, title, (ALIAS_HOPS - 1) as nat);
    assert(resolved(doc, doc[at].alias->0, ALIAS_HOPS as nat) is None);
}

/// A chain that never ends, as every chain does that runs into a circle,
/// resolves to nothing.
pub proof fn lemma_endless_chain_resolves_to_nothing(doc: Map<Seq<char>, GameView>, title: Seq<char>)
    requires
        forall|n: nat| #[trigger] hop(doc, title, n) is Some,
    ensures
        resolved(doc, title, 0) is None,
        !aliases_of(doc).dom().contains(title),
{
    assert(hop(doc, title, ALIAS_HOPS as nat) is Some);
    let at = hop(doc, title, (ALIAS_HOPS - 1) as nat)->0;
    lemma_long_chain_resolves_to_nothing(doc, title, at);
}

/// A chain that leads to a title that the manifest does not hold resolves
/// to nothing.
pub proof fn lemma_broken_chain_resolves_to_nothing(
    doc: Map<Seq<char>, GameView>,
    title: Seq<char>,
    n: nat,
    at: Seq<char>,
)
    requires
        n < ALIAS_HOPS,
        hop(doc, title, n) == Some(at),
        doc[at].alias matches Some(next) && !doc.dom().contains(next),
    ensures
        resolved(doc, title, 0) is None,
        !aliases_of(doc).dom().contains(title),
{
    lemma_resolved_along_chain(doc, title, n, at);
    lemma_hop_stays_inside(doc, title, n);
    assert(resolved(doc, doc[at].alias->0, n + 1) is None);
}

/// A title that is no alias, and a title that the manifest does not hold,
/// resolve to nothing.
pub proof fn lemma_plain_title_resolves_to_nothing(doc: Map<Seq<char>, GameView>, title: Seq<char>)
    requires
        !doc.dom().contains(title) || doc[title].alias is None,
    ensures
        resolved(doc, title, 0) is None,
        !aliases_of(doc).dom().contains(title),
{
}

impl Manifest {
    /// The title that `title` stands for in the end, if it is an alias.
    pub fn resolve(&self, title: &str) -> (r: Option<String>)
        ensures
            text_of(r) == resolved(self@, title@, 0),
    {
        let mut hops: usize = 0;
        let mut lookup: &str = title;
        loop
            invariant
                hops <= ALIAS_HOPS,
                resolved(self@, title@, 0) == resolved(self@, lookup@, hops as nat),
            decreases ALIAS_HOPS - hops,
        {
            if hops >= ALIAS_HOPS {
                return None;
            }
            match self.0.get(lookup) {
                None => {
                    return None;
                },
                Some(game) => match &game.alias {
                    Some(alias) => {
                        lookup = alias.as_str();
                    },
                    None => {
                        if hops == 0 {
                            return None;
                        } else {
                            return Some(String::from_str(lookup));
                        }
                    },
                },
            }
            hops += 1;
        }
    }

    /// Each alias with the title that it stands for in the end.
    pub fn aliases(&self) -> (r: Dict<String>)
        ensures
            r@ == aliases_of(self@),
    {
        let mut out: Dict<String> = Dict::new();
        let n = self.0.len();
        let ghost keys = self.0.keys();
        let mut i: usize = 0;
        while i < n
            invariant
                i <= n,
                n == keys.len(),
                keys == self.0.keys(),
                self.0.listed(),
                forall|title: Seq<char>|
                    out@.dom().contains(title) <==> (exists|j: int|
                        0 <= j < i && keys[j] == title) && resolved(self@, title, 0) is Some,
                forall|title: Seq<char>|
                    out@.dom().contains(title) ==> out@[title] == resolved(self@, title, 0)->0,
            decreases n - i,
        {
            let title = self.0.key(i);
            let ghost before = out@;
            match self.resolve(title.as_str()) {
                Some(end) => {
                    out.insert(title.clone(), end);
                },
                None => {},
            }
            proof {
                assert forall|t: Seq<char>|
                    out@.dom().contains(t) <==> (exists|j: int| 0 <= j < i + 1 && keys[j] == t)
                        && resolved(self@, t, 0) is Some by {
                    if before.dom().contains(t) {
                        let j = choose|j: int| 0 <= j < i && keys[j] == t;
                        assert(0 <= j < i + 1 && keys[j] == t);
                    }
                    if exists|j: int| 0 <= j < i + 1 && keys[j] == t {
                        let j = choose|j: int| 0 <= j < i + 1 && keys[j] == t;
                        if j < i {
                            assert(0 <= j < i && keys[j] == t);
                        }
                    }
                    assert(keys[i as int] == title@);
                }
            }
            i += 1;
        }
        proof {
            let a = out@;
            let b = aliases_of(self@);
            assert forall|t: Seq<char>| a.dom().contains(t) == b.dom().contains(t) by {
                if self@.dom().contains(t) {
                    assert(keys.to_set().contains(t));
                    assert(keys.contains(t));
                    let j = keys.index_of(t);
                    assert(0 <= j < n && keys[j] == t);
                }
                if exists|j: int| 0 <= j < n && keys[j] == t {
                    let j = choose|j: int| 0 <= j < n && keys[j] == t;
                    assert(self@.dom().contains(keys[j]));
                }
            }
            assert(a =~= b);
        }
        out
    }
}

impl Game {
    /// Whether the game can be looked for.
    pub fn is_processable(&self) -> (r: bool)
        ensures
            r == self@.processable(),
    {
        self.alias.is_none() && (!self.files.is_empty() || !self.registry.is_empty()
            || !self.steam.is_empty() || !self.gog.is_empty() || !self.id.is_empty())
    }
}

/// The texts of a list of borrowed titles.
pub open spec fn title_texts(titles: Seq<&String>) -> Seq<Seq<char>> {
    titles.map_values(|t: &String| t@)
}

/// The texts of the titles of a list of games.
pub open spec fn game_titles(games: Seq<(&String, &Game)>) -> Seq<Seq<char>> {
    games.map_values(|g: (&String, &Game)| g.0@)
}

impl Manifest {
    /// The games that can be looked for, with their titles, in the order
    /// of the titles.
    pub fn processable_games(&self) -> (r: Vec<(&String, &Game)>)
        ensures
            ascending(game_titles(r@)),
            forall|title: Seq<char>|
                game_titles(r@).contains(title) <==> self@.dom().contains(title)
                    && self@[title].processable(),
            forall|i: int| 0 <= i < r.len() ==> (#[trigger] r[i]).1@ == self@[r[i].0@],
    {
        let mut out: Vec<(&String, &Game)> = Vec::new();
        let n = self.0.len();
        let ghost keys = self.0.keys();
        let mut i: usize = 0;
        while i < n
            invariant
                i <= n,
                n == keys.len(),
                keys == self.0.keys(),
                self.0.listed(),
                ascending(game_titles(out@)),
                forall|k: int|
                    0 <= k < out.len() ==> #[trigger] among(keys, i as int, game_titles(out@)[k]),
                forall|j: int|
                    0 <= j < i && self@[keys[j]].processable() ==> game_titles(out@).contains(
                        #[trigger] keys[j],
                    ),
                forall|k: int|
                    0 <= k < out.len() ==> (#[trigger] out[k]).1@ == self@[out[k].0@]
                        && self@[out[k].0@].processable(),
            decreases n - i,
        {
            let title = self.0.key(i);
            let game = self.0.value(i);
            let ghost before = game_titles(out@);
            if game.is_processable() {
                out.push((title, game));
                proof {
                    let now = game_titles(out@);
                    assert(now =~= before.push(title@));
                    lemma_selected_grows(keys, i as int, before, now);
                    assert forall|j: int|
                        0 <= j < i + 1 && self@[keys[j]].processable() implies now.contains(
                        #[trigger] keys[j],
                    ) by {
                        if j < i {
                            assert(before.contains(keys[j]));
                            let k = before.index_of(keys[j]);
                            assert(now[k] == keys[j]);
                        } else {
                            assert(now[now.len() - 1] == keys[j]);
                        }
                    }
                }
            } else {
                proof {
                    lemma_selected_stays(keys, i as int, before);
                }
            }
            i += 1;
        }
        proof {
            let titles = game_titles(out@);
            assert forall|t: Seq<char>|
                titles.contains(t) <==> self@.dom().contains(t) && self@[t].processable() by {
                if titles.contains(t) {
                    let k = titles.index_of(t);
                    assert(titles[k] == t);
                    assert(out@[k].0@ == t);
                    assert(among(keys, n as int, titles[k]));
                    let j = choose|j: int| 0 <= j < n && keys[j] == titles[k];
                    assert(self@.dom().contains(keys[j]));
                }
                if self@.dom().contains(t) && self@[t].processable() {
                    assert(keys.to_set().contains(t));
                    assert(keys.contains(t));
                    let j = keys.index_of(t);
                    assert(0 <= j < n && keys[j] == t);
                }
            }
        }
        out
    }

    /// The titles of the games that can be looked for, in their order.
    pub fn processable_titles(&self) -> (r: Vec<&String>)
        ensures
            ascending(title_texts(r@)),
            forall|title: Seq<char>|
                title_texts(r@).contains(title) <==> self@.dom().contains(title)
                    && self@[title].processable(),
    {
        let games = self.processable_games();
        let mut out: Vec<&String> = Vec::new();
        let mut i: usize = 0;
        while i < games.len()
            invariant
                i <= games.len(),
                title_texts(out@) == game_titles(games@).subrange(0, i as int),
            decreases games.len() - i,
        {
            let ghost before = out@;
            let title: &String = games[i].0;
            out.push(title);
            proof {
                assert(out@ == before.push(title));
                assert(game_titles(games@)[i as int] == title@);
                assert(title_texts(out@) =~= title_texts(before).push(title@));
                assert(title_texts(out@) =~= game_titles(games@).subrange(0, i + 1));
            }
            i += 1;
        }
        assert(game_titles(games@).subrange(0, i as int) =~= game_titles(games@));
        out
    }

    /// The titles that are no aliases, in their order.
    pub fn primary_titles(&self) -> (r: Vec<String>)
        ensures
            ascending(r.deep_view()),
            forall|title: Seq<char>|
                r.deep_view().contains(title) <==> self@.dom().contains(title)
                    && self@[title].alias is None,
    {
        let mut out: Vec<String> = Vec::new();
        let n = self.0.len();
        let ghost keys = self.0.keys();
        let mut i: usize = 0;
        while i < n
            invariant
                i <= n,
                n == keys.len(),
                keys == self.0.keys(),
                self.0.listed(),
                ascending(out.deep_view()),
                forall|k: int|
                    0 <= k < out.len() ==> #[trigger] among(keys, i as int, out.deep_view()[k]),
                forall|k: int|
                    0 <= k < out.len() ==> self@[#[trigger] out.deep_view()[k]].alias is None,
                forall|j: int|
                    0 <= j < i && self@[keys[j]].alias is None ==> out.deep_view().contains(
                        #[trigger] keys[j],
                    ),
            decreases n - i,
        {
            let title = self.0.key(i);
            let game = self.0.value(i);
            let ghost before = out.deep_view();
            if game.alias.is_none() {
                out.push(title.clone());
                proof {
                    let now = out.deep_view();
                    assert(now =~= before.push(title@));
                    lemma_selected_grows(keys, i as int, before, now);
                    assert forall|k: int| 0 <= k < out.len() implies self@[#[trigger] now[k]].alias
                        is None by {
                        if k < before.len() {
                            assert(now[k] == before[k]);
                        }
                    }
                    assert forall|j: int|
                        0 <= j < i + 1 && self@[keys[j]].alias is None implies now.contains(
                        #[trigger] keys[j],
                    ) by {
                        if j < i {
                            assert(before.contains(keys[j]));
                            let k = before.index_of(keys[j]);
                            assert(now[k] == keys[j]);
                        } else {
                            assert(now[now.len() - 1] == keys[j]);
                        }
                    }
                }
            } else {
                proof {
                    lemma_selected_stays(keys, i as int, before);
                }
            }
            i += 1;
        }
        proof {
            let titles = out.deep_view();
            assert forall|t: Seq<char>|
                titles.contains(t) <==> self@.dom().contains(t) && self@[t].alias is None by {
                if titles.contains(t) {
                    let k = titles.index_of(t);
                    assert(titles[k] == t);
                    assert(among(keys, n as int, titles[k]));
                    let j = choose|j: int| 0 <= j < n && keys[j] == titles[k];
                    assert(self@.dom().contains(keys[j]));
                }
                if self@.dom().contains(t) && self@[t].alias is None {
                    assert(keys.to_set().contains(t));
                    assert(keys.contains(t));
                    let j = keys.index_of(t);
                    assert(0 <= j < n && keys[j] == t);
                }
            }
        }
        out
    }
}

/// Whether `title` is one of the first `i` keys.
pub open spec fn among(keys: Seq<Seq<char>>, i: int, title: Seq<char>) -> bool {
    exists|j: int| 0 <= j < i && keys[j] == title
}

/// A selection from the first `i` keys that takes in key `i` is a selection
/// from the first `i + 1` keys, and ascends as the keys do.
proof fn lemma_selected_grows(
    keys: Seq<Seq<char>>,
    i: int,
    before: Seq<Seq<char>>,
    now: Seq<Seq<char>>,
)
    requires
        0 <= i < keys.len(),
        ascending(keys),
        ascending(before),
        forall|k: int| 0 <= k < before.len() ==> #[trigger] among(keys, i, before[k]),
        now == before.push(keys[i]),
    ensures
        ascending(now),
        forall|k: int| 0 <= k < now.len() ==> #[trigger] among(keys, i + 1, now[k]),
{
    assert forall|a: int, b: int| 0 <= a < b < now.len() implies text_before(
        #[trigger] now[a],
        #[trigger] now[b],
    ) by {
        if b == now.len() - 1 {
            assert(among(keys, i, before[a]));
            let j = choose|j: int| 0 <= j < i && keys[j] == before[a];
            assert(text_before(keys[j], keys[i]));
        } else {
            assert(now[a] == before[a]);
            assert(now[b] == before[b]);
        }
    }
    assert forall|k: int| 0 <= k < now.len() implies #[trigger] among(keys, i + 1, now[k]) by {
        if k < before.len() {
            assert(among(keys, i, before[k]));
            let j = choose|j: int| 0 <= j < i && keys[j] == before[k];
            assert(0 <= j < i + 1 && keys[j] == now[k]);
        } else {
            assert(0 <= i < i + 1 && keys[i] == now[k]);
        }
    }
}

/// A selection from the first `i` keys is one from the first `i + 1`.
proof fn lemma_selected_stays(keys: Seq<Seq<char>>, i: int, titles: Seq<Seq<char>>)
    requires
        forall|k: int| 0 <= k < titles.len() ==> #[trigger] among(keys, i, titles[k]),
    ensures
        forall|k: int| 0 <= k < titles.len() ==> #[trigger] among(keys, i + 1, titles[k]),
{
    assert forall|k: int| 0 <= k < titles.len() implies #[trigger] among(keys, i + 1, titles[k]) by {
        assert(among(keys, i, titles[k]));
        let j = choose|j: int| 0 <= j < i && keys[j] == titles[k];
        assert(0 <= j < i + 1 && keys[j] == titles[k]);
    }
}

} // verus!
