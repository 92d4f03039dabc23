//! The titles of a manifest by the ids that stores know them by.

use std::collections::HashMap;
use vstd::prelude::*;
use crate::dict::{ascending, Dict};
use crate::manifest::{Game, GameView, Manifest};
use crate::text::text_before;

verus! {

broadcast use vstd::std_specs::hash::group_hash_axioms;

/// Whether Steam knows the game by `id`.
pub open spec fn has_steam_id(game: GameView, id: u32) -> bool {
    game.steam.id == Some(id) || game.id.steam_extra.contains(id)
}

/// Whether GOG knows the game by `id`.
pub open spec fn has_gog_id(game: GameView, id: u64) -> bool {
    game.gog.id == Some(id) || game.id.gog_extra.contains(id)
}

/// Whether Lutris knows the game by `id`.
pub open spec fn has_lutris_id(game: GameView, id: Seq<char>) -> bool {
    game.id.lutris == Some(id)
}

/// An id of a game at one of the stores.
pub enum StoreId {
    Steam(u32),
    Gog(u64),
    Lutris(Seq<char>),
}

/// Whether the store of `id` knows the game by it.
pub open spec fn known_by(game: GameView, id: StoreId) -> bool {
    match id {
        StoreId::Steam(id) => has_steam_id(game, id),
        StoreId::Gog(id) => has_gog_id(game, id),
        StoreId::Lutris(id) => has_lutris_id(game, id),
    }
}

/// Whether `title` is the last of the titles of `doc` whose game is known
/// by `id`. Where several games share an id, the id leads to the last title.
pub open spec fn last_title(doc: Map<Seq<char>, GameView>, title: Seq<char>, id: StoreId) -> bool {
    &&& doc.dom().contains(title)
    &&& known_by(doc[title], id)
    &&& forall|other: Seq<char>|
        doc.dom().contains(other) && #[trigger] known_by(doc[other], id) ==> other == title
            || text_before(other, title)
}

/// Whether place `j` is the last below `i` whose game is known by `id`.
pub open spec fn last_place(
    keys: Seq<Seq<char>>,
    doc: Map<Seq<char>, GameView>,
    i: int,
    j: int,
    id: StoreId,
) -> bool {
    &&& 0 <= j < i
    &&& known_by(doc[keys[j]], id)
    &&& forall|later: int| j < later < i ==> !#[trigger] known_by(doc[keys[later]], id)
}

/// The last place of all is the place of the last title.
proof fn lemma_last_place_is_last_title(
    keys: Seq<Seq<char>>,
    doc: Map<Seq<char>, GameView>,
    j: int,
    id: StoreId,
)
    requires
        ascending(keys),
        doc.dom() == keys.to_set(),
        last_place(keys, doc, keys.len() as int, j, id),
    ensures
        last_title(doc, keys[j], id),
{
    assert(keys.contains(keys[j]));
    assert forall|other: Seq<char>|
        doc.dom().contains(other) && #[trigger] known_by(doc[other], id) implies other == keys[j]
        || text_before(other, keys[j]) by {
        assert(keys.contains(other));
        let k = keys.index_of(other);
        assert(0 <= k < keys.len() && keys[k] == other);
        if k > j {
            assert(!known_by(doc[keys[k]], id));
        }
    }
}

fn note_steam_ids(out: &mut HashMap<u32, String>, title: &String, game: &Game)
    ensures
        forall|id: u32|
            #![trigger final(out)@.dom().contains(id)]
            #![trigger old(out)@.dom().contains(id)]
            #![trigger has_steam_id(game@, id)]
            final(out)@.dom().contains(id) <==> old(out)@.dom().contains(id) || has_steam_id(
                game@,
                id,
            ),
        forall|id: u32| has_steam_id(game@, id) ==> #[trigger] final(out)@[id]@ == title@,
        forall|id: u32|
            !has_steam_id(game@, id) && old(out)@.dom().contains(id) ==> #[trigger] final(out)@[id]
                == old(out)@[id],
{
    match game.steam.id {
        Some(id) => {
            out.insert(id, title.clone());
        },
        None => {},
    }
    let n = game.id.steam_extra.len();
    let ghost items = game.id.steam_extra.items();
    let mut i: usize = 0;
    while i < n
        invariant
            i <= n,
            n == items.len(),
            items == game.id.steam_extra.items(),
            game.id.steam_extra.listed(),
            forall|id: u32|
                out@.dom().contains(id) <==> old(out)@.dom().contains(id) || game.steam.id == Some(
                    id,
                ) || exists|k: int| 0 <= k < i && items[k] == id,
            forall|id: u32|
                game.steam.id == Some(id) || (exists|k: int| 0 <= k < i && items[k] == id)
                    ==> #[trigger] out@[id]@ == title@,
            forall|id: u32|
                !has_steam_id(game@, id) && old(out)@.dom().contains(id) ==> #[trigger] out@[id]
                    == old(out)@[id],
        decreases n - i,
    {
        let id = game.id.steam_extra.item(i);
        assert(items.contains(id));
        out.insert(id, title.clone());
        proof {
            assert forall|x: u32|
                out@.dom().contains(x) <==> old(out)@.dom().contains(x) || game.steam.id == Some(x)
                    || exists|k: int| 0 <= k < i + 1 && items[k] == x by {
                if exists|k: int| 0 <= k < i && items[k] == x {
                    let k = choose|k: int| 0 <= k < i && items[k] == x;
                    assert(0 <= k < i + 1 && items[k] == x);
                }
                if exists|k: int| 0 <= k < i + 1 && items[k] == x {
                    let k = choose|k: int| 0 <= k < i + 1 && items[k] == x;
                    if k < i {
                        assert(0 <= k < i && items[k] == x);
                    }
                }
                assert(items[i as int] == id);
            }
            assert forall|x: u32|
                game.steam.id == Some(x) || (exists|k: int|
                    0 <= k < i + 1 && items[k] == x) implies #[trigger] out@[x]@ == title@ by {
                if x != id {
                    if exists|k: int| 0 <= k < i + 1 && items[k] == x {
                        let k = choose|k: int| 0 <= k < i + 1 && items[k] == x;
                        assert(0 <= k < i && items[k] == x);
                    }
                }
            }
        }
        i += 1;
    }
    proof {
        assert forall|id: u32| has_steam_id(game@, id) implies (game.steam.id == Some(id) || exists|
            k: int,
        |
            0 <= k < n && items[k] == id) by {
            if game.id.steam_extra@.contains(id) {
                assert(items.to_set().contains(id));
                assert(items.contains(id));
                let k = items.index_of(id);
                assert(0 <= k < n && items[k] == id);
            }
        }
        assert forall|id: u32|
            (exists|k: int| 0 <= k < n && items[k] == id) implies game.id.steam_extra@.contains(
            id,
        ) by {
            let k = choose|k: int| 0 <= k < n && items[k] == id;
            assert(items.contains(id));
        }
    }
}

fn note_gog_ids(out: &mut HashMap<u64, String>, title: &String, game: &Game)
    ensures
        forall|id: u64|
            #![trigger final(out)@.dom().contains(id)]
            #![trigger old(out)@.dom().contains(id)]
            #![trigger has_gog_id(game@, id)]
            final(out)@.dom().contains(id) <==> old(out)@.dom().contains(id) || has_gog_id(
                game@,
                id,
            ),
        forall|id: u64| has_gog_id(game@, id) ==> #[trigger] final(out)@[id]@ == title@,
        forall|id: u64|
            !has_gog_id(game@, id) && old(out)@.dom().contains(id) ==> #[trigger] final(out)@[id]
                == old(out)@[id],
{
    match game.gog.id {
        Some(id) => {
            out.insert(id, title.clone());
        },
        None => {},
    }
    let n = game.id.gog_extra.len();
    let ghost items = game.id.gog_extra.items();
    let mut i: usize = 0;
    while i < n
        invariant
            i <= n,
            n == items.len(),
            items == game.id.gog_extra.items(),
            game.id.gog_extra.listed(),
            forall|id: u64|
                out@.dom().contains(id) <==> old(out)@.dom().contains(id) || game.gog.id == Some(id)
                    || exists|k: int| 0 <= k < i && items[k] == id,
            forall|id: u64|
                game.gog.id == Some(id) || (exists|k: int| 0 <= k < i && items[k] == id)
                    ==> #[trigger] out@[id]@ == title@,
            forall|id: u64|
                !has_gog_id(game@, id) && old(out)@.dom().contains(id) ==> #[trigger] out@[id]
                    == old(out)@[id],
        decreases n - i,
    {
        let id = game.id.gog_extra.item(i);
        assert(items.contains(id));
        out.insert(id, title.clone());
        proof {
            assert forall|x: u64|
                out@.dom().contains(x) <==> old(out)@.dom().contains(x) || game.gog.id == Some(x)
                    || exists|k: int| 0 <= k < i + 1 && items[k] == x by {
                if exists|k: int| 0 <= k < i && items[k] == x {
                    let k = choose|k: int| 0 <= k < i && items[k] == x;
                    assert(0 <= k < i + 1 && items[k] == x);
                }
                if exists|k: int| 0 <= k < i + 1 && items[k] == x {
                    let k = choose|k: int| 0 <= k < i + 1 && items[k] == x;
                    if k < i {
                        assert(0 <= k < i && items[k] == x);
                    }
                }
                assert(items[i as int] == id);
            }
            assert forall|x: u64|
                game.gog.id == Some(x) || (exists|k: int|
                    0 <= k < i + 1 && items[k] == x) implies #[trigger] out@[x]@ == title@ by {
                if x != id {
                    if exists|k: int| 0 <= k < i + 1 && items[k] == x {
                        let k = choose|k: int| 0 <= k < i + 1 && items[k] == x;
                        assert(0 <= k < i && items[k] == x);
                    }
                }
            }
        }
        i += 1;
    }
    proof {
        assert forall|id: u64| has_gog_id(game@, id) implies (game.gog.id == Some(id) || exists|
            k: int,
        |
            0 <= k < n && items[k] == id) by {
            if game.id.gog_extra@.contains(id) {
                assert(items.to_set().contains(id));
                assert(items.contains(id));
                let k = items.index_of(id);
                assert(0 <= k < n && items[k] == id);
            }
        }
        assert forall|id: u64|
            (exists|k: int| 0 <= k < n && items[k] == id) implies game.id.gog_extra@.contains(
            id,
        ) by {
            let k = choose|k: int| 0 <= k < n && items[k] == id;
            assert(items.contains(id));
        }
    }
}

impl Manifest {
    /// The title of each id at Steam.
    pub fn map_steam_ids_to_names(&self) -> (r: HashMap<u32, String>)
        ensures
            forall|id: u32|
                r@.dom().contains(id) <==> exists|title: Seq<char>|
                    self@.dom().contains(title) && has_steam_id(self@[title], id),
            forall|id: u32|
                r@.dom().contains(id) ==> last_title(
                    self@,
                    #[trigger] r@[id]@,
                    StoreId::Steam(id),
                ),
    {
        let mut out: HashMap<u32, String> = HashMap::new();
        let n = self.0.len();
        let ghost keys = self.0.keys();
        let ghost doc = self@;
        let mut i: usize = 0;
        while i < n
            invariant
                i <= n,
                n == keys.len(),
                keys == self.0.keys(),
                doc == self@,
                self.0.listed(),
                forall|j: int, id: u32|
                    0 <= j < i && #[trigger] has_steam_id(doc[keys[j]], id) ==> out@.dom().contains(
                        id,
                    ),
                forall|id: u32| #[trigger]
                    out@.dom().contains(id) ==> exists|j: int|
                        last_place(
                            keys,
                            doc,
                            i as int,
                            j,
                            StoreId::Steam(id),
                        ) && keys[j] == out@[id]@,
            decreases n - i,
        {
            let title = self.0.key(i);
            let game = self.0.value(i);
            let ghost before = out@;
            assert(game@ == doc[keys[i as int]]);
            note_steam_ids(&mut out, title, game);
            proof {
                assert forall|j: int, id: u32|
                    0 <= j < i + 1 && #[trigger] has_steam_id(doc[keys[j]], id) implies out@.dom().contains(
                    id,
                ) by {
                    if j < i {
                        assert(before.dom().contains(id));
                        assert(out@.dom().contains(id));
                    } else {
                        assert(j == i);
                        assert(has_steam_id(game@, id));
                        assert(out@.dom().contains(id));
                    }
                }
                assert forall|id: u32| #[trigger] out@.dom().contains(id) implies exists|j: int|
                    last_place(
                        keys,
                        doc,
                        i + 1,
                        j,
                        StoreId::Steam(id),
                    ) && keys[j] == out@[id]@ by {
                    let meets = StoreId::Steam(id);
                    if has_steam_id(game@, id) {
                        assert(keys[i as int] == out@[id]@ && last_place(
                            keys,
                            doc,
                            i + 1,
                            i as int,
                            meets,
                        ));
                    } else {
                        assert(before.dom().contains(id));
                        let j = choose|j: int|
                            last_place(keys, doc, i as int, j, meets) && keys[j] == before[id]@;
                        assert(!known_by(doc[keys[i as int]], meets));
                        assert(last_place(keys, doc, i + 1, j, meets) && keys[j] == out@[id]@);
                    }
                }
            }
            i += 1;
        }
        proof {
            assert forall|id: u32|
                out@.dom().contains(id) <==> exists|title: Seq<char>|
                    self@.dom().contains(title) && has_steam_id(self@[title], id) by {
                let meets = StoreId::Steam(id);
                if out@.dom().contains(id) {
                    let j = choose|j: int|
                        last_place(keys, doc, n as int, j, meets) && keys[j] == out@[id]@;
                    assert(self@.dom().contains(keys[j]));
                    assert(known_by(doc[keys[j]], meets));
                }
                if exists|title: Seq<char>|
                    self@.dom().contains(title) && has_steam_id(self@[title], id) {
                    let title = choose|title: Seq<char>|
                        self@.dom().contains(title) && has_steam_id(self@[title], id);
                    assert(keys.to_set().contains(title));
                    assert(keys.contains(title));
                    let j = keys.index_of(title);
                    assert(0 <= j < n && keys[j] == title);
                }
            }
            assert forall|id: u32| out@.dom().contains(id) implies last_title(
                self@,
                #[trigger] out@[id]@,
                StoreId::Steam(id),
            ) by {
                let meets = StoreId::Steam(id);
                let j = choose|j: int|
                    last_place(keys, doc, n as int, j, meets) && keys[j] == out@[id]@;
                lemma_last_place_is_last_title(keys, doc, j, meets);
            }
        }
        out
    }

    /// The title of each id at GOG.
    pub fn map_gog_ids_to_names(&self) -> (r: HashMap<u64, String>)
        ensures
            forall|id: u64|
                r@.dom().contains(id) <==> exists|title: Seq<char>|
                    self@.dom().contains(title) && has_gog_id(self@[title], id),
            forall|id: u64|
                r@.dom().contains(id) ==> last_title(
                    self@,
                    #[trigger] r@[id]@,
                    StoreId::Gog(id),
                ),
    {
        let mut out: HashMap<u64, String> = HashMap::new();
        let n = self.0.len();
        let ghost keys = self.0.keys();
        let ghost doc = self@;
        let mut i: usize = 0;
        while i < n
            invariant
                i <= n,
                n == keys.len(),
                keys == self.0.keys(),
                doc == self@,
                self.0.listed(),
                forall|j: int, id: u64|
                    0 <= j < i && #[trigger] has_gog_id(doc[keys[j]], id) ==> out@.dom().contains(
                        id,
                    ),
                forall|id: u64| #[trigger]
                    out@.dom().contains(id) ==> exists|j: int|
                        last_place(
                            keys,
                            doc,
                            i as int,
                            j,
                            StoreId::Gog(id),
                        ) && keys[j] == out@[id]@,
            decreases n - i,
        {
            let title = self.0.key(i);
            let game = self.0.value(i);
            let ghost before = out@;
            assert(game@ == doc[keys[i as int]]);
            note_gog_ids(&mut out, title, game);
            proof {
                assert forall|j: int, id: u64|
                    0 <= j < i + 1 && #[trigger] has_gog_id(doc[keys[j]], id) implies out@.dom().contains(
                    id,
                ) by {
                    if j < i {
                        assert(before.dom().contains(id));
                    }
                }
                assert forall|id: u64| #[trigger] out@.dom().contains(id) implies exists|j: int|
                    last_place(
                        keys,
                        doc,
                        i + 1,
                        j,
                        StoreId::Gog(id),
                    ) && keys[j] == out@[id]@ by {
                    let meets = StoreId::Gog(id);
                    if has_gog_id(game@, id) {
                        assert(keys[i as int] == out@[id]@ && last_place(
                            keys,
                            doc,
                            i + 1,
                            i as int,
                            meets,
                        ));
                    } else {
                        assert(before.dom().contains(id));
                        let j = choose|j: int|
                            last_place(keys, doc, i as int, j, meets) && keys[j] == before[id]@;
                        assert(!known_by(doc[keys[i as int]], meets));
                        assert(last_place(keys, doc, i + 1, j, meets) && keys[j] == out@[id]@);
                    }
                }
            }
            i += 1;
        }
        proof {
            assert forall|id: u64|
                out@.dom().contains(id) <==> exists|title: Seq<char>|
                    self@.dom().contains(title) && has_gog_id(self@[title], id) by {
                let meets = StoreId::Gog(id);
                if out@.dom().contains(id) {
                    let j = choose|j: int|
                        last_place(keys, doc, n as int, j, meets) && keys[j] == out@[id]@;
                    assert(self@.dom().contains(keys[j]));
                    assert(known_by(doc[keys[j]], meets));
                }
                if exists|title: Seq<char>|
                    self@.dom().contains(title) && has_gog_id(self@[title], id) {
                    let title = choose|title: Seq<char>|
                        self@.dom().contains(title) && has_gog_id(self@[title], id);
                    assert(keys.to_set().contains(title));
                    assert(keys.contains(title));
                    let j = keys.index_of(title);
                    assert(0 <= j < n && keys[j] == title);
                }
            }
            assert forall|id: u64| out@.dom().contains(id) implies last_title(
                self@,
                #[trigger] out@[id]@,
                StoreId::Gog(id),
            ) by {
                let meets = StoreId::Gog(id);
                let j = choose|j: int|
                    last_place(keys, doc, n as int, j, meets) && keys[j] == out@[id]@;
                lemma_last_place_is_last_title(keys, doc, j, meets);
            }
        }
        out
    }

    /// The title of each id at Lutris.
    pub fn map_lutris_ids_to_names(&self) -> (r: Dict<String>)
        ensures
            forall|id: Seq<char>|
                r@.dom().contains(id) <==> exists|title: Seq<char>|
                    self@.dom().contains(title) && has_lutris_id(self@[title], id),
            forall|id: Seq<char>|
                r@.dom().contains(id) ==> last_title(
                    self@,
                    #[trigger] r@[id],
                    StoreId::Lutris(id),
                ),
    {
        let mut out: Dict<String> = Dict::new();
        let n = self.0.len();
        let ghost keys = self.0.keys();
        let ghost doc = self@;
        let mut i: usize = 0;
        while i < n
            invariant
                i <= n,
                n == keys.len(),
                keys == self.0.keys(),
                doc == self@,
                self.0.listed(),
                forall|j: int, id: Seq<char>|
                    0 <= j < i && #[trigger] has_lutris_id(doc[keys[j]], id)
                        ==> out@.dom().contains(id),
                forall|id: Seq<char>| #[trigger]
                    out@.dom().contains(id) ==> exists|j: int|
                        last_place(
                            keys,
                            doc,
                            i as int,
                            j,
                            StoreId::Lutris(id),
                        ) && keys[j] == out@[id],
            decreases n - i,
        {
            let title = self.0.key(i);
            let game = self.0.value(i);
            let ghost before = out@;
            assert(game@ == doc[keys[i as int]]);
            match &game.id.lutris {
                Some(id) => {
                    out.insert(id.clone(), title.clone());
                },
                None => {},
            }
            proof {
                assert forall|id: Seq<char>| #[trigger] out@.dom().contains(id) implies exists|j: int|
                    last_place(
                        keys,
                        doc,
                        i + 1,
                        j,
                        StoreId::Lutris(id),
                    ) && keys[j] == out@[id] by {
                    let meets = StoreId::Lutris(id);
                    if has_lutris_id(game@, id) {
                        assert(keys[i as int] == out@[id] && last_place(
                            keys,
                            doc,
                            i + 1,
                            i as int,
                            meets,
                        ));
                    } else {
                        assert(before.dom().contains(id));
                        let j = choose|j: int|
                            last_place(keys, doc, i as int, j, meets) && keys[j] == before[id];
                        assert(!known_by(doc[keys[i as int]], meets));
                        assert(last_place(keys, doc, i + 1, j, meets) && keys[j] == out@[id]);
                    }
                }
            }
            i += 1;
        }
        proof {
            assert forall|id: Seq<char>|
                out@.dom().contains(id) <==> exists|title: Seq<char>|
                    self@.dom().contains(title) && has_lutris_id(self@[title], id) by {
                let meets = StoreId::Lutris(id);
                if out@.dom().contains(id) {
                    let j = choose|j: int|
                        last_place(keys, doc, n as int, j, meets) && keys[j] == out@[id];
                    assert(self@.dom().contains(keys[j]));
                    assert(known_by(doc[keys[j]], meets));
                }
                if exists|title: Seq<char>|
                    self@.dom().contains(title) && has_lutris_id(self@[title], id) {
                    let title = choose|title: Seq<char>|
                        self@.dom().contains(title) && has_lutris_id(self@[title], id);
                    assert(keys.to_set().contains(title));
                    assert(keys.contains(title));
                    let j = keys.index_of(title);
                    assert(0 <= j < n && keys[j] == title);
                }
            }
            assert forall|id: Seq<char>| out@.dom().contains(id) implies last_title(
                self@,
                #[trigger] out@[id],
                StoreId::Lutris(id),
            ) by {
                let meets = StoreId::Lutris(id);
                let j = choose|j: int|
                    last_place(keys, doc, n as int, j, meets) && keys[j] == out@[id];
                lemma_last_place_is_last_title(keys, doc, j, meets);
            }
        }
        out
    }
}

} // verus!
