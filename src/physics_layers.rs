//! Collision layers, so that spatial queries can look for one kind of body
//! only (targeting must not pick the ground).

use vstd::prelude::*;

verus! {

/// The layer of a collider.
#[derive(Clone, Copy, Debug, Default, PartialEq, Eq, Structural)]
pub enum GameLayer {
    /// The layer every collider starts on.
    #[default]
    Default,
    Enemy,
    Player,
    Bullet,
    Terrain,
    Boomerang,
    DeadEnemy,
}

/// Position of a layer in the layer mask.
pub open spec fn layer_index(l: GameLayer) -> nat {
    match l {
        GameLayer::Default => 0,
        GameLayer::Enemy => 1,
        GameLayer::Player => 2,
        GameLayer::Bullet => 3,
        GameLayer::Terrain => 4,
        GameLayer::Boomerang => 5,
        GameLayer::DeadEnemy => 6,
    }
}

impl GameLayer {
    /// The layer's bit in a mask: bit `layer_index`.
    pub fn to_bits(self) -> (r: u32)
        ensures
            r as nat == vstd::arithmetic::power2::pow2(layer_index(self)),
    {
        proof {
            vstd::arithmetic::power2::lemma2_to64();
        }
        match self {
            GameLayer::Default => 1,
            GameLayer::Enemy => 2,
            GameLayer::Player => 4,
            GameLayer::Bullet => 8,
            GameLayer::Terrain => 16,
            GameLayer::Boomerang => 32,
            GameLayer::DeadEnemy => 64,
        }
    }

    /// A mask holding every layer.
    pub fn all_bits() -> (r: u32)
        ensures
            r as nat == vstd::arithmetic::power2::pow2(7) - 1,
    {
        proof {
            vstd::arithmetic::power2::lemma2_to64();
        }
        127
    }
}

} // verus!
