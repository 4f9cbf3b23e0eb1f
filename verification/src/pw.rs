//! The Planet Wars protocol types and the move rules the server checks.
//!
//! The runtime passes player commands through opaquely; the game rules
//! validate each move — the origin and destination planets exist, the
//! origin is owned by the player, and the ship count is covered — and
//! silently discard the rest.

use vstd::prelude::*;

verus! {

/// A fleet under way between two planets.
pub struct Expedition {
    pub id: u64,
    pub ship_count: u64,
    pub origin: String,
    pub destination: String,
    pub owner: u64,
    pub turns_remaining: u64,
}

/// One planet as the protocol carries it. The board coordinates are
/// presentation data and stay with the serialization layer.
pub struct Planet {
    pub ship_count: u64,
    pub owner: Option<u64>,
    pub name: String,
}

pub struct PlanetView {
    pub ship_count: u64,
    pub owner: Option<u64>,
    pub name: Seq<char>,
}

impl View for Planet {
    type V = PlanetView;

    open spec fn view(&self) -> PlanetView {
        PlanetView { ship_count: self.ship_count, owner: self.owner, name: self.name@ }
    }
}

/// The board: planets and expeditions under way.
pub struct State {
    pub planets: Vec<Planet>,
    pub expeditions: Vec<Expedition>,
}

/// One move order of a player.
pub struct Command {
    pub origin: String,
    pub destination: String,
    pub ship_count: u64,
}

pub struct CommandView {
    pub origin: Seq<char>,
    pub destination: Seq<char>,
    pub ship_count: u64,
}

impl View for Command {
    type V = CommandView;

    open spec fn view(&self) -> CommandView {
        CommandView {
            origin: self.origin@,
            destination: self.destination@,
            ship_count: self.ship_count,
        }
    }
}

/// A player's orders for one turn.
pub struct Action {
    pub commands: Vec<Command>,
}

/// A board as loaded from a map description.
pub struct GameMap {
    pub planets: Vec<Planet>,
}

/// One participant of the match, as the rules see it.
pub struct Player {
    pub id: usize,
    pub name: String,
    pub alive: bool,
}

pub struct PlayerView {
    pub id: usize,
    pub name: Seq<char>,
    pub alive: bool,
}

impl View for Player {
    type V = PlayerView;

    open spec fn view(&self) -> PlayerView {
        PlayerView { id: self.id, name: self.name@, alive: self.alive }
    }
}

/// The view of a planet list.
pub open spec fn spec_planets(s: Seq<Planet>) -> Seq<PlanetView> {
    s.map(|i: int, p: Planet| p@)
}

/// Whether a planet of this name is on the board.
pub open spec fn spec_has_planet(planets: Seq<PlanetView>, name: Seq<char>) -> bool {
    exists|i: int| 0 <= i < planets.len() && planets[i].name == name
}

/// The planet of this name.
pub open spec fn spec_planet_of(planets: Seq<PlanetView>, name: Seq<char>) -> PlanetView
    recommends
        spec_has_planet(planets, name),
{
    planets[choose|i: int| 0 <= i < planets.len() && planets[i].name == name]
}

/// No two planets share a name.
pub open spec fn spec_planet_names_unique(planets: Seq<PlanetView>) -> bool {
    forall|a: int, b: int| 0 <= a < b < planets.len() ==> planets[a].name != planets[b].name
}

/// Whether this move is admissible for `player` on this board: both
/// planets exist, the player owns the origin, and the origin covers the
/// ship count.
pub open spec fn spec_move_valid(
    planets: Seq<PlanetView>,
    player: u64,
    cmd: CommandView,
) -> bool {
    &&& spec_has_planet(planets, cmd.origin)
    &&& spec_has_planet(planets, cmd.destination)
    &&& spec_planet_of(planets, cmd.origin).owner == Some(player)
    &&& spec_planet_of(planets, cmd.origin).ship_count >= cmd.ship_count
}

/// The planet of this name, executably.
fn find_planet<'a>(planets: &'a Vec<Planet>, name: &String) -> (r: Option<&'a Planet>)
    requires
        spec_planet_names_unique(spec_planets(planets@)),
    ensures
        r matches Some(p) ==> spec_has_planet(spec_planets(planets@), name@) && p@
            == spec_planet_of(spec_planets(planets@), name@),
        r is None ==> !spec_has_planet(spec_planets(planets@), name@),
{
    let ghost pv = spec_planets(planets@);
    let mut i: usize = 0;
    while i < planets.len()
        invariant
            i <= planets@.len(),
            pv == spec_planets(planets@),
            spec_planet_names_unique(pv),
            forall|j: int| 0 <= j < i ==> pv[j].name != name@,
        decreases planets@.len() - i,
    {
        if planets[i].name == *name {
            proof {
                assert(spec_planet_names_unique(pv));
                assert(forall|a: int, b: int|
                    0 <= a < b < pv.len() ==> pv[a].name != pv[b].name);
                assert(pv[i as int].name == name@);
                assert(spec_has_planet(pv, name@));
                let k = choose|k: int| 0 <= k < pv.len() && pv[k].name == name@;
                assert(0 <= k < pv.len() && pv[k].name == name@);
                if k != i {
                    if k < i {
                        assert(pv[k].name != pv[i as int].name);
                    } else {
                        assert(pv[i as int].name != pv[k].name);
                    }
                }
            }
            return Some(&planets[i]);
        }
        i += 1;
    }
    proof {
        if exists|k: int| 0 <= k < pv.len() && pv[k].name == name@ {
            let k = choose|k: int| 0 <= k < pv.len() && pv[k].name == name@;
            assert(pv[k].name != name@);
        }
    }
    None
}

/// Whether `player` may make this move on this board.
pub fn move_valid(planets: &Vec<Planet>, player: u64, cmd: &Command) -> (r: bool)
    requires
        spec_planet_names_unique(spec_planets(planets@)),
    ensures
        r == spec_move_valid(spec_planets(planets@), player, cmd@),
{
    let origin = match find_planet(planets, &cmd.origin) {
        None => {
            return false;
        },
        Some(p) => p,
    };
    if find_planet(planets, &cmd.destination).is_none() {
        return false;
    }
    let owned = match origin.owner {
        Some(o) => o == player,
        None => false,
    };
    if !owned {
        return false;
    }
    origin.ship_count >= cmd.ship_count
}

/// The admissible moves of an order list, in order; the rest are
/// silently discarded.
pub open spec fn spec_valid_moves(
    planets: Seq<PlanetView>,
    player: u64,
    cmds: Seq<CommandView>,
) -> Seq<CommandView>
    decreases cmds.len(),
{
    if cmds.len() == 0 {
        Seq::empty()
    } else {
        let rest = spec_valid_moves(planets, player, cmds.drop_first());
        if spec_move_valid(planets, player, cmds[0]) {
            seq![cmds[0]] + rest
        } else {
            rest
        }
    }
}

/// The view of an order list.
pub open spec fn spec_cmd_views(s: Seq<Command>) -> Seq<CommandView> {
    s.map(|i: int, c: Command| c@)
}

/// Keep exactly the admissible moves of `action`, in order.
pub fn valid_moves(planets: &Vec<Planet>, player: u64, action: Action) -> (r: Vec<Command>)
    requires
        spec_planet_names_unique(spec_planets(planets@)),
    ensures
        spec_cmd_views(r@) == spec_valid_moves(
            spec_planets(planets@),
            player,
            spec_cmd_views(action.commands@),
        ),
{
    let ghost pv = spec_planets(planets@);
    let ghost all = spec_cmd_views(action.commands@);
    let mut r: Vec<Command> = Vec::new();
    let mut cmds = action.commands;
    let mut i: usize = 0;
    assert(all.skip(0) =~= all);
    while i < cmds.len()
        invariant
            i <= cmds@.len(),
            all == spec_cmd_views(cmds@),
            pv == spec_planets(planets@),
            spec_planet_names_unique(pv),
            spec_valid_moves(pv, player, all) == spec_cmd_views(r@) + spec_valid_moves(
                pv,
                player,
                all.skip(i as int),
            ),
        decreases cmds@.len() - i,
    {
        let keep = move_valid(planets, player, &cmds[i]);
        proof {
            assert(all.skip(i as int)[0] == all[i as int]);
            assert(all.skip(i as int).drop_first() =~= all.skip(i + 1));
        }
        if keep {
            let c = Command {
                origin: cmds[i].origin.clone(),
                destination: cmds[i].destination.clone(),
                ship_count: cmds[i].ship_count,
            };
            assert(c@ == all[i as int]);
            let ghost r0 = spec_cmd_views(r@);
            r.push(c);
            proof {
                assert(spec_cmd_views(r@) =~= r0.push(all[i as int]));
                assert(r0.push(all[i as int]) + spec_valid_moves(pv, player, all.skip(i + 1)) =~= r0
                    + (seq![all[i as int]] + spec_valid_moves(pv, player, all.skip(i + 1))));
            }
        }
        i += 1;
    }
    proof {
        assert(all.skip(cmds@.len() as int) =~= Seq::<CommandView>::empty());
        assert(spec_cmd_views(r@) + Seq::<CommandView>::empty() =~= spec_cmd_views(r@));
    }
    r
}

/// The view of a player list.
pub open spec fn spec_players(s: Seq<Player>) -> Seq<PlayerView> {
    s.map(|i: int, p: Player| p@)
}

/// The names of the players still alive, in roster order: the winner
/// set when the game reports completion.
pub open spec fn spec_winners(players: Seq<PlayerView>) -> Seq<Seq<char>>
    decreases players.len(),
{
    if players.len() == 0 {
        Seq::empty()
    } else {
        let rest = spec_winners(players.drop_first());
        if players[0].alive {
            seq![players[0].name] + rest
        } else {
            rest
        }
    }
}

/// The names of the players still alive, in roster order.
pub fn winners(players: &Vec<Player>) -> (r: Vec<String>)
    ensures
        r@.map(|i: int, s: String| s@) == spec_winners(spec_players(players@)),
{
    let ghost all = spec_players(players@);
    let mut r: Vec<String> = Vec::new();
    let mut i: usize = 0;
    assert(all.skip(0) =~= all);
    while i < players.len()
        invariant
            i <= players@.len(),
            all == spec_players(players@),
            spec_winners(all) == r@.map(|k: int, s: String| s@) + spec_winners(
                all.skip(i as int),
            ),
        decreases players@.len() - i,
    {
        proof {
            assert(all.skip(i as int)[0] == all[i as int]);
            assert(all.skip(i as int).drop_first() =~= all.skip(i + 1));
        }
        if players[i].alive {
            let ghost r0 = r@.map(|k: int, s: String| s@);
            let name = players[i].name.clone();
            assert(name@ == all[i as int].name);
            r.push(name);
            proof {
                assert(r@.map(|k: int, s: String| s@) =~= r0.push(all[i as int].name));
                assert(r0.push(all[i as int].name) + spec_winners(all.skip(i + 1)) =~= r0 + (seq![
                    all[i as int].name,
                ] + spec_winners(all.skip(i + 1))));
            }
        }
        i += 1;
    }
    proof {
        assert(all.skip(players@.len() as int) =~= Seq::<PlayerView>::empty());
        assert(r@.map(|k: int, s: String| s@) + Seq::<Seq<char>>::empty() =~= r@.map(
            |k: int, s: String| s@,
        ));
    }
    r
}


/// A planet as a map description names it: the owner by player name.
pub struct MapPlanet {
    pub name: String,
    pub owner: Option<String>,
    pub ship_count: u64,
}

pub struct MapPlanetView {
    pub name: Seq<char>,
    pub owner: Option<Seq<char>>,
    pub ship_count: u64,
}

impl View for MapPlanet {
    type V = MapPlanetView;

    open spec fn view(&self) -> MapPlanetView {
        MapPlanetView {
            name: self.name@,
            owner: match self.owner {
                Some(ref n) => Some(n@),
                None => None,
            },
            ship_count: self.ship_count,
        }
    }
}

/// The view of a name-to-id translation.
pub open spec fn spec_translation(s: Seq<(String, u64)>) -> Seq<(Seq<char>, u64)> {
    s.map(|i: int, p: (String, u64)| (p.0@, p.1))
}

/// The id the translation gives a player name: the first match.
pub open spec fn spec_owner_id(translation: Seq<(Seq<char>, u64)>, name: Seq<char>) -> Option<u64>
    decreases translation.len(),
{
    if translation.len() == 0 {
        None
    } else if translation[0].0 == name {
        Some(translation[0].1)
    } else {
        spec_owner_id(translation.drop_first(), name)
    }
}

/// The id the translation gives a player name, executably.
fn owner_id(translation: &Vec<(String, u64)>, name: &String) -> (r: Option<u64>)
    ensures
        r == spec_owner_id(spec_translation(translation@), name@),
{
    let ghost tv = spec_translation(translation@);
    let mut i: usize = 0;
    assert(tv.skip(0) =~= tv);
    while i < translation.len()
        invariant
            i <= translation@.len(),
            tv == spec_translation(translation@),
            spec_owner_id(tv, name@) == spec_owner_id(tv.skip(i as int), name@),
        decreases translation@.len() - i,
    {
        proof {
            assert(tv.skip(i as int)[0] == tv[i as int]);
            assert(tv.skip(i as int).drop_first() =~= tv.skip(i + 1));
        }
        if translation[i].0 == *name {
            return Some(translation[i].1);
        }
        i += 1;
    }
    assert(tv.skip(translation@.len() as int) =~= Seq::<(Seq<char>, u64)>::empty());
    None
}

/// The roster a match starts from: one player per name, in order,
/// numbered by position, everyone alive.
pub fn make_players(names: &Vec<String>) -> (r: Vec<Player>)
    ensures
        r@.len() == names@.len(),
        forall|i: int|
            0 <= i < r@.len() ==> (#[trigger] r@[i]@) == (PlayerView {
                id: i as usize,
                name: names@[i]@,
                alive: true,
            }),
{
    let mut r: Vec<Player> = Vec::new();
    let mut i: usize = 0;
    while i < names.len()
        invariant
            i <= names@.len(),
            r@.len() == i,
            forall|j: int|
                0 <= j < i ==> (#[trigger] r@[j]@) == (PlayerView {
                    id: j as usize,
                    name: names@[j]@,
                    alive: true,
                }),
        decreases names@.len() - i,
    {
        let name = names[i].clone();
        assert(name@ == names@[i as int]@);
        r.push(Player { id: i, name, alive: true });
        i += 1;
    }
    r
}

/// The owner a resolved planet gets: the translated id of its owner
/// name, if it has one the translation knows.
pub open spec fn spec_resolved_owner(
    owner: Option<Seq<char>>,
    translation: Seq<(Seq<char>, u64)>,
) -> Option<u64> {
    match owner {
        Some(n) => spec_owner_id(translation, n),
        None => None,
    }
}

/// Resolve a loaded map against the roster: each planet keeps its name
/// and garrison, and its owner name becomes the translated player id.
/// An owner name the translation does not know becomes no owner, as
/// does an unowned planet.
pub fn load_map(map: &Vec<MapPlanet>, translation: &Vec<(String, u64)>) -> (r: Vec<Planet>)
    ensures
        r@.len() == map@.len(),
        forall|i: int|
            0 <= i < r@.len() ==> (#[trigger] r@[i]@) == (PlanetView {
                ship_count: map@[i]@.ship_count,
                owner: spec_resolved_owner(map@[i]@.owner, spec_translation(translation@)),
                name: map@[i]@.name,
            }),
{
    let mut r: Vec<Planet> = Vec::new();
    let mut i: usize = 0;
    while i < map.len()
        invariant
            i <= map@.len(),
            r@.len() == i,
            forall|j: int|
                0 <= j < i ==> (#[trigger] r@[j]@) == (PlanetView {
                    ship_count: map@[j]@.ship_count,
                    owner: spec_resolved_owner(map@[j]@.owner, spec_translation(translation@)),
                    name: map@[j]@.name,
                }),
        decreases map@.len() - i,
    {
        let owner = match &map[i].owner {
            Some(n) => owner_id(translation, n),
            None => None,
        };
        let name = map[i].name.clone();
        assert(name@ == map@[i as int]@.name);
        r.push(Planet { ship_count: map[i].ship_count, owner, name });
        i += 1;
    }
    r
}
} // verus!