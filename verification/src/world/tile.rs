//! Tiles: the terrain class of a cell, what lies on it, and how high it is.

use vstd::prelude::*;

verus! {

/// The terrain class of a cell.
#[derive(Clone, Copy, Debug, PartialEq, Eq, Hash, Structural)]
pub enum TileType {
    DeepWater,
    ShallowWater,
    Sand,
    Grass,
    Street,
    Hill,
    Mountain,
    Snow,
    Lava,
    /// A teleport; the flag tells whether it has been discovered.
    Teleport(bool),
    Wall,
}

/// What lies on a cell. A kind with an amount carries it; `Bin`, `Crate` and
/// `Bank` carry the two ends of a half-open range of amounts.
#[derive(Clone, Copy, Debug, PartialEq, Eq, Hash, Structural)]
pub enum Content {
    Rock(usize),
    Tree(usize),
    Garbage(usize),
    Fire,
    Coin(usize),
    Bin(usize, usize),
    Crate(usize, usize),
    Bank(usize, usize),
    Water(usize),
    Market(usize),
    Fish(usize),
    Building,
    Bush(usize),
    JollyBlock(usize),
    Scarecrow,
    /// Nothing lies on the cell.
    Empty,
}

/// One cell of the world.
#[derive(Clone, Copy, Debug, PartialEq, Eq, Hash, Structural)]
pub struct Tile {
    pub tile_type: TileType,
    pub content: Content,
    pub elevation: usize,
}

/// The number of content kinds, `Empty` included.
pub const CONTENT_KINDS: usize = 16;

impl TileType {
    /// Water, deep or shallow.
    pub open spec fn is_water_spec(self) -> bool {
        self == TileType::DeepWater || self == TileType::ShallowWater
    }

    /// A robot may stand on every terrain but deep water and walls.
    pub open spec fn walk_spec(self) -> bool {
        self != TileType::DeepWater && self != TileType::Wall
    }

    /// Which contents a terrain admits: water holds `Water` and `Fish`, the
    /// land terrains hold every other kind but `Empty`, and lava, teleports
    /// and walls hold nothing.
    pub open spec fn can_hold_spec(self, content: Content) -> bool {
        match self {
            TileType::DeepWater | TileType::ShallowWater => content.is_aquatic(),
            TileType::Sand
            | TileType::Grass
            | TileType::Street
            | TileType::Hill
            | TileType::Mountain
            | TileType::Snow => !content.is_aquatic() && !(content is Empty),
            TileType::Lava | TileType::Teleport(_) | TileType::Wall => false,
        }
    }

    #[verifier::when_used_as_spec(is_water_spec)]
    pub fn is_water(self) -> (r: bool)
        ensures
            r == self.is_water_spec(),
    {
        match self {
            TileType::DeepWater | TileType::ShallowWater => true,
            _ => false,
        }
    }

    #[verifier::when_used_as_spec(walk_spec)]
    pub fn walk(self) -> (r: bool)
        ensures
            r == self.walk_spec(),
    {
        match self {
            TileType::DeepWater | TileType::Wall => false,
            _ => true,
        }
    }

    #[verifier::when_used_as_spec(can_hold_spec)]
    pub fn can_hold(self, content: Content) -> (r: bool)
        ensures
            r == self.can_hold_spec(content),
    {
        let aquatic = match content {
            Content::Water(_) | Content::Fish(_) => true,
            _ => false,
        };
        let nothing = match content {
            Content::Empty => true,
            _ => false,
        };
        match self {
            TileType::DeepWater | TileType::ShallowWater => aquatic,
            TileType::Sand
            | TileType::Grass
            | TileType::Street
            | TileType::Hill
            | TileType::Mountain
            | TileType::Snow => !aquatic && !nothing,
            TileType::Lava | TileType::Teleport(_) | TileType::Wall => false,
        }
    }

    /// The terrain classes, teleports once, in a fixed order.
    pub fn all() -> (r: Vec<TileType>)
        ensures
            r@ == Self::all_spec(),
    {
        vec![
            TileType::DeepWater,
            TileType::ShallowWater,
            TileType::Sand,
            TileType::Grass,
            TileType::Street,
            TileType::Hill,
            TileType::Mountain,
            TileType::Snow,
            TileType::Lava,
            TileType::Teleport(false),
            TileType::Wall,
        ]
    }

    pub open spec fn all_spec() -> Seq<TileType> {
        seq![
            TileType::DeepWater,
            TileType::ShallowWater,
            TileType::Sand,
            TileType::Grass,
            TileType::Street,
            TileType::Hill,
            TileType::Mountain,
            TileType::Snow,
            TileType::Lava,
            TileType::Teleport(false),
            TileType::Wall,
        ]
    }
}

impl Content {
    /// `Water` and `Fish`: the contents that belong in water.
    pub open spec fn is_aquatic(self) -> bool {
        self is Water || self is Fish
    }

    /// The position of a content's kind among the kinds.
    pub open spec fn index_spec(self) -> int {
        match self {
            Content::Rock(_) => 0,
            Content::Tree(_) => 1,
            Content::Garbage(_) => 2,
            Content::Fire => 3,
            Content::Coin(_) => 4,
            Content::Bin(_, _) => 5,
            Content::Crate(_, _) => 6,
            Content::Bank(_, _) => 7,
            Content::Water(_) => 8,
            Content::Market(_) => 9,
            Content::Fish(_) => 10,
            Content::Building => 11,
            Content::Bush(_) => 12,
            Content::JollyBlock(_) => 13,
            Content::Scarecrow => 14,
            Content::Empty => 15,
        }
    }

    /// The greatest amount a content of this kind may carry; 0 for a kind
    /// without an amount.
    pub open spec fn max_spec(self) -> int {
        match self {
            Content::Rock(_) => 4,
            Content::Tree(_) => 5,
            Content::Garbage(_) => 3,
            Content::Fire => 0,
            Content::Coin(_) => 10,
            Content::Bin(_, _) => 10,
            Content::Crate(_, _) => 20,
            Content::Bank(_, _) => 50,
            Content::Water(_) => 20,
            Content::Market(_) => 20,
            Content::Fish(_) => 3,
            Content::Building => 0,
            Content::Bush(_) => 10,
            Content::JollyBlock(_) => 2,
            Content::Scarecrow => 0,
            Content::Empty => 0,
        }
    }

    /// The amount a content carries: the amount itself, the upper end of a
    /// range, or 0 for a kind without an amount.
    pub open spec fn amount_spec(self) -> usize {
        match self {
            Content::Rock(v) => v,
            Content::Tree(v) => v,
            Content::Garbage(v) => v,
            Content::Fire => 0,
            Content::Coin(v) => v,
            Content::Bin(_, v) => v,
            Content::Crate(_, v) => v,
            Content::Bank(_, v) => v,
            Content::Water(v) => v,
            Content::Market(v) => v,
            Content::Fish(v) => v,
            Content::Building => 0,
            Content::Bush(v) => v,
            Content::JollyBlock(v) => v,
            Content::Scarecrow => 0,
            Content::Empty => 0,
        }
    }

    /// `self` is a content of the kind of `kind` as a pass places it: made
    /// by `to_value` from an amount below the kind's greatest, or from 0
    /// for a kind without an amount.
    pub open spec fn placed_as(self, kind: Content) -> bool {
        &&& self == kind.to_value_spec(self.amount_spec())
        &&& (self.amount_spec() < kind.max_spec() || (kind.max_spec() == 0 && self.amount_spec()
            == 0))
    }

    /// The content of the same kind that carries `value`: the amount itself,
    /// or the range from 0 up to it.
    pub open spec fn to_value_spec(self, value: usize) -> Content {
        match self {
            Content::Rock(_) => Content::Rock(value),
            Content::Tree(_) => Content::Tree(value),
            Content::Garbage(_) => Content::Garbage(value),
            Content::Fire => Content::Fire,
            Content::Coin(_) => Content::Coin(value),
            Content::Bin(_, _) => Content::Bin(0, value),
            Content::Crate(_, _) => Content::Crate(0, value),
            Content::Bank(_, _) => Content::Bank(0, value),
            Content::Water(_) => Content::Water(value),
            Content::Market(_) => Content::Market(value),
            Content::Fish(_) => Content::Fish(value),
            Content::Building => Content::Building,
            Content::Bush(_) => Content::Bush(value),
            Content::JollyBlock(_) => Content::JollyBlock(value),
            Content::Scarecrow => Content::Scarecrow,
            Content::Empty => Content::Empty,
        }
    }

    /// The representative of a content's kind: the same kind carrying 0.
    pub open spec fn to_default_spec(self) -> Content {
        self.to_value_spec(0)
    }

    /// Two contents are of one kind.
    pub open spec fn same_kind(self, other: Content) -> bool {
        self.index_spec() == other.index_spec()
    }

    pub fn index(self) -> (r: usize)
        ensures
            r == self.index_spec(),
            r < CONTENT_KINDS,
    {
        match self {
            Content::Rock(_) => 0,
            Content::Tree(_) => 1,
            Content::Garbage(_) => 2,
            Content::Fire => 3,
            Content::Coin(_) => 4,
            Content::Bin(_, _) => 5,
            Content::Crate(_, _) => 6,
            Content::Bank(_, _) => 7,
            Content::Water(_) => 8,
            Content::Market(_) => 9,
            Content::Fish(_) => 10,
            Content::Building => 11,
            Content::Bush(_) => 12,
            Content::JollyBlock(_) => 13,
            Content::Scarecrow => 14,
            Content::Empty => 15,
        }
    }

    pub fn max(self) -> (r: usize)
        ensures
            r == self.max_spec(),
    {
        match self {
            Content::Rock(_) => 4,
            Content::Tree(_) => 5,
            Content::Garbage(_) => 3,
            Content::Fire => 0,
            Content::Coin(_) => 10,
            Content::Bin(_, _) => 10,
            Content::Crate(_, _) => 20,
            Content::Bank(_, _) => 50,
            Content::Water(_) => 20,
            Content::Market(_) => 20,
            Content::Fish(_) => 3,
            Content::Building => 0,
            Content::Bush(_) => 10,
            Content::JollyBlock(_) => 2,
            Content::Scarecrow => 0,
            Content::Empty => 0,
        }
    }

    #[verifier::when_used_as_spec(to_value_spec)]
    pub fn to_value(self, value: usize) -> (r: Content)
        ensures
            r == self.to_value_spec(value),
    {
        match self {
            Content::Rock(_) => Content::Rock(value),
            Content::Tree(_) => Content::Tree(value),
            Content::Garbage(_) => Content::Garbage(value),
            Content::Fire => Content::Fire,
            Content::Coin(_) => Content::Coin(value),
            Content::Bin(_, _) => Content::Bin(0, value),
            Content::Crate(_, _) => Content::Crate(0, value),
            Content::Bank(_, _) => Content::Bank(0, value),
            Content::Water(_) => Content::Water(value),
            Content::Market(_) => Content::Market(value),
            Content::Fish(_) => Content::Fish(value),
            Content::Building => Content::Building,
            Content::Bush(_) => Content::Bush(value),
            Content::JollyBlock(_) => Content::JollyBlock(value),
            Content::Scarecrow => Content::Scarecrow,
            Content::Empty => Content::Empty,
        }
    }

    #[verifier::when_used_as_spec(to_default_spec)]
    pub fn to_default(self) -> (r: Content)
        ensures
            r == self.to_default_spec(),
    {
        self.to_value(0)
    }

    /// The representative of each kind, in the order of the kinds.
    pub open spec fn all_spec() -> Seq<Content> {
        seq![
            Content::Rock(0),
            Content::Tree(0),
            Content::Garbage(0),
            Content::Fire,
            Content::Coin(0),
            Content::Bin(0, 0),
            Content::Crate(0, 0),
            Content::Bank(0, 0),
            Content::Water(0),
            Content::Market(0),
            Content::Fish(0),
            Content::Building,
            Content::Bush(0),
            Content::JollyBlock(0),
            Content::Scarecrow,
            Content::Empty,
        ]
    }

    pub fn all() -> (r: Vec<Content>)
        ensures
            r@ == Self::all_spec(),
    {
        vec![
            Content::Rock(0),
            Content::Tree(0),
            Content::Garbage(0),
            Content::Fire,
            Content::Coin(0),
            Content::Bin(0, 0),
            Content::Crate(0, 0),
            Content::Bank(0, 0),
            Content::Water(0),
            Content::Market(0),
            Content::Fish(0),
            Content::Building,
            Content::Bush(0),
            Content::JollyBlock(0),
            Content::Scarecrow,
            Content::Empty,
        ]
    }
}

/// Whether a terrain admits a content depends on the content's kind alone,
/// and so does the greatest amount.
pub proof fn lemma_kind_decides(a: Content, b: Content, terrain: TileType)
    requires
        a.same_kind(b),
    ensures
        terrain.can_hold_spec(a) == terrain.can_hold_spec(b),
        a.max_spec() == b.max_spec(),
        a.to_default_spec() == b.to_default_spec(),
{
}

/// Every value of a kind is of that kind, and the kind's representative is
/// its own representative.
pub proof fn lemma_to_value_keeps_kind(content: Content, value: usize)
    ensures
        content.to_value_spec(value).same_kind(content),
        content.to_default_spec().to_default_spec() == content.to_default_spec(),
        Content::all_spec()[content.index_spec()] == content.to_default_spec(),
{
}

} // verus!
