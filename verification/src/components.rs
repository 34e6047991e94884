use vstd::prelude::*;

use crate::map::GameMap;

verus! {

/// Integer tile coordinates of an entity.
#[derive(PartialEq, Eq, Structural, Clone, Copy, Debug)]
pub struct Position {
    pub x: i32,
    pub y: i32,
}

/// An 8-bit colour channel triple; the rendering glue converts it to
/// whatever colour type the display wants.
#[derive(PartialEq, Eq, Structural, Clone, Copy, Debug)]
pub struct Color {
    pub r: u8,
    pub g: u8,
    pub b: u8,
}

/// Static appearance of an entity: a glyph and its colours.
#[derive(PartialEq, Eq, Structural, Clone, Copy, Debug)]
pub struct Renderable {
    pub glyph: char,
    pub fg: Color,
    pub bg: Color,
}

/// Per-entity field of view: the radius, the invalidation flag, and the
/// last computed visible-tile set.
pub struct Viewshed {
    pub visible_tiles: Vec<usize>,
    pub range: i32,
    pub dirty: bool,
}

/// A display label, used in reaction messages.
pub struct Name {
    pub name: String,
}

/// The entity/component store: typed component tables keyed by a dense
/// entity index, with optional fields for components an entity may lack and
/// membership flags for the role tags. Entities are created whole by the
/// factory methods and never destroyed.
pub struct Ecs {
    pub positions: Vec<Option<Position>>,
    pub renderables: Vec<Option<Renderable>>,
    pub viewsheds: Vec<Option<Viewshed>>,
    pub names: Vec<Option<Name>>,
    pub players: Vec<bool>,
    pub monsters: Vec<bool>,
}

impl Ecs {
    pub open spec fn num_entities(self) -> int {
        self.positions@.len() as int
    }

    /// All component tables cover the same entities, and at most one entity
    /// carries the player tag.
    pub open spec fn wf(self) -> bool {
        &&& self.renderables@.len() == self.positions@.len()
        &&& self.viewsheds@.len() == self.positions@.len()
        &&& self.names@.len() == self.positions@.len()
        &&& self.players@.len() == self.positions@.len()
        &&& self.monsters@.len() == self.positions@.len()
        &&& forall|i: int, j: int|
            0 <= i < self.players@.len() && 0 <= j < self.players@.len() && self.players@[i]
                && self.players@[j] ==> i == j
    }

    pub open spec fn has_player(self) -> bool {
        exists|e: int| 0 <= e < self.num_entities() && self.players@[e]
    }

    /// The index of the player entity; meaningful only when `has_player()`.
    pub open spec fn player_index(self) -> int {
        choose|e: int| 0 <= e < self.num_entities() && self.players@[e]
    }

    /// Every viewshed radius fits the grid-size bound used by the
    /// field-of-view engine.
    pub open spec fn ranges_ok(self) -> bool {
        forall|e: int|
            0 <= e < self.num_entities() && self.viewsheds@[e] is Some
                ==> 0 <= (#[trigger] self.viewsheds@[e]).unwrap().range <= 4096
    }

    /// Every stored position lies on the given map.
    pub open spec fn positions_in_bounds(self, map: GameMap) -> bool {
        forall|e: int|
            0 <= e < self.num_entities() && self.positions@[e] is Some ==> map.spec_in_bounds(
                (#[trigger] self.positions@[e]).unwrap().x as int,
                self.positions@[e].unwrap().y as int,
            )
    }

    /// An empty store.
    pub fn new() -> (ecs: Ecs)
        ensures
            ecs.wf(),
            ecs.num_entities() == 0,
            !ecs.has_player(),
    {
        Ecs {
            positions: Vec::new(),
            renderables: Vec::new(),
            viewsheds: Vec::new(),
            names: Vec::new(),
            players: Vec::new(),
            monsters: Vec::new(),
        }
    }

    pub fn len(&self) -> (n: usize)
        requires
            self.wf(),
        ensures
            n == self.num_entities(),
    {
        self.positions.len()
    }

    /// Create the player entity: position, appearance, a dirty viewshed of
    /// radius 8, and the fixed label.
    pub fn create_player(&mut self, x: i32, y: i32, glyph: char, fg: Color, bg: Color) -> (e:
        usize)
        requires
            old(self).wf(),
            !old(self).has_player(),
        ensures
            final(self).wf(),
            e == old(self).num_entities(),
            final(self).num_entities() == old(self).num_entities() + 1,
            final(self).positions@ == old(self).positions@.push(Some(Position { x, y })),
            final(self).renderables@ == old(self).renderables@.push(
                Some(Renderable { glyph, fg, bg }),
            ),
            final(self).names@.len() == old(self).names@.len() + 1,
            forall|k: int| 0 <= k < e ==> final(self).names@[k] == old(self).names@[k],
            final(self).names@[e as int] is Some,
            final(self).names@[e as int].unwrap().name@ == "Player"@,
            final(self).viewsheds@.len() == old(self).viewsheds@.len() + 1,
            forall|k: int| 0 <= k < e ==> final(self).viewsheds@[k] == old(self).viewsheds@[k],
            final(self).viewsheds@[e as int] is Some,
            final(self).viewsheds@[e as int].unwrap().visible_tiles@ == Seq::<usize>::empty(),
            final(self).viewsheds@[e as int].unwrap().range == 8,
            final(self).viewsheds@[e as int].unwrap().dirty,
            final(self).players@ == old(self).players@.push(true),
            final(self).monsters@ == old(self).monsters@.push(false),
            final(self).has_player(),
            final(self).player_index() == e,
    {
        let e = self.positions.len();
        self.positions.push(Some(Position { x, y }));
        self.renderables.push(Some(Renderable { glyph, fg, bg }));
        self.viewsheds.push(
            Some(Viewshed { visible_tiles: Vec::new(), range: 8, dirty: true }),
        );
        self.names.push(Some(Name { name: "Player".to_owned() }));
        self.players.push(true);
        self.monsters.push(false);
        proof {
            assert forall|i: int, j: int|
                0 <= i < self.players@.len() && 0 <= j < self.players@.len() && self.players@[i]
                    && self.players@[j] implies i == j by {
                if i < e && j < e {
                } else if i < e {
                    assert(old(self).players@[i]);
                    assert(old(self).has_player());
                } else if j < e {
                    assert(old(self).players@[j]);
                    assert(old(self).has_player());
                }
            }
            assert(self.players@[e as int]);
            assert(self.has_player());
            reveal_strlit("Player");
        }
        e
    }

    /// Create a monster entity: position, appearance, a dirty viewshed of
    /// radius 8, the monster tag, and the given label.
    pub fn create_monster(
        &mut self,
        x: i32,
        y: i32,
        glyph: char,
        fg: Color,
        bg: Color,
        name: String,
    ) -> (e: usize)
        requires
            old(self).wf(),
        ensures
            final(self).wf(),
            e == old(self).num_entities(),
            final(self).num_entities() == old(self).num_entities() + 1,
            final(self).positions@ == old(self).positions@.push(Some(Position { x, y })),
            final(self).renderables@ == old(self).renderables@.push(
                Some(Renderable { glyph, fg, bg }),
            ),
            final(self).names@.len() == old(self).names@.len() + 1,
            forall|k: int| 0 <= k < e ==> final(self).names@[k] == old(self).names@[k],
            final(self).names@[e as int] is Some,
            final(self).names@[e as int].unwrap().name == name,
            final(self).viewsheds@.len() == old(self).viewsheds@.len() + 1,
            forall|k: int| 0 <= k < e ==> final(self).viewsheds@[k] == old(self).viewsheds@[k],
            final(self).viewsheds@[e as int] is Some,
            final(self).viewsheds@[e as int].unwrap().visible_tiles@ == Seq::<usize>::empty(),
            final(self).viewsheds@[e as int].unwrap().range == 8,
            final(self).viewsheds@[e as int].unwrap().dirty,
            final(self).players@ == old(self).players@.push(false),
            final(self).monsters@ == old(self).monsters@.push(true),
            final(self).has_player() == old(self).has_player(),
            old(self).has_player() ==> final(self).player_index() == old(self).player_index(),
    {
        let e = self.positions.len();
        self.positions.push(Some(Position { x, y }));
        self.renderables.push(Some(Renderable { glyph, fg, bg }));
        self.viewsheds.push(
            Some(Viewshed { visible_tiles: Vec::new(), range: 8, dirty: true }),
        );
        self.names.push(Some(Name { name }));
        self.players.push(false);
        self.monsters.push(true);
        proof {
            assert forall|i: int, j: int|
                0 <= i < self.players@.len() && 0 <= j < self.players@.len() && self.players@[i]
                    && self.players@[j] implies i == j by {}
            if old(self).has_player() {
                let p = old(self).player_index();
                assert(self.players@[p]);
                assert(self.has_player());
                assert(self.player_index() == p);
            }
            if self.has_player() {
                let p = self.player_index();
                assert(p < e ==> old(self).players@[p]);
            }
        }
        e
    }
}

} // verus!
