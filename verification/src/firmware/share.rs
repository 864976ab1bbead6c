//! The card on screen, kept as a one-byte code by the UI task for the
//! telemetry task.

use vstd::prelude::*;
use crate::log::Scene;

verus! {

/// The one-byte code of a card. Codes 3 to 5 belong to the radio cards,
/// which this card set does not have.
pub open spec fn spec_scene_byte(scene: Scene) -> u8 {
    match scene {
        Scene::Splash => 0,
        Scene::Shapes => 1,
        Scene::Legend => 2,
        Scene::Tones => 6,
        Scene::Targets => 7,
    }
}

/// The card a code names, if any.
pub open spec fn spec_from_scene_byte(byte: u8) -> Option<Scene> {
    if byte == 0 {
        Some(Scene::Splash)
    } else if byte == 1 {
        Some(Scene::Shapes)
    } else if byte == 2 {
        Some(Scene::Legend)
    } else if byte == 6 {
        Some(Scene::Tones)
    } else if byte == 7 {
        Some(Scene::Targets)
    } else {
        None
    }
}

/// The one-byte code of a card.
pub fn scene_byte(scene: Scene) -> (b: u8)
    ensures
        b == spec_scene_byte(scene),
{
    match scene {
        Scene::Splash => 0,
        Scene::Shapes => 1,
        Scene::Legend => 2,
        Scene::Tones => 6,
        Scene::Targets => 7,
    }
}

/// The card a code names, or `None`.
pub fn from_scene_byte(byte: u8) -> (s: Option<Scene>)
    ensures
        s == spec_from_scene_byte(byte),
{
    match byte {
        0 => Some(Scene::Splash),
        1 => Some(Scene::Shapes),
        2 => Some(Scene::Legend),
        6 => Some(Scene::Tones),
        7 => Some(Scene::Targets),
        _ => None,
    }
}

/// The register of the card on screen.
pub struct SceneShare {
    /// Code of the last card stored.
    pub scene: u8,
    /// Whether a card was stored yet.
    pub have_scene: bool,
}

/// What [`SceneShare::last_scene`] reads from the register.
pub open spec fn spec_last_scene(s: SceneShare) -> Option<Scene> {
    if s.have_scene { spec_from_scene_byte(s.scene) } else { None }
}

impl SceneShare {
    /// No card drawn yet.
    pub fn new() -> (s: SceneShare)
        ensures
            s.scene == 0,
            !s.have_scene,
    {
        SceneShare { scene: 0, have_scene: false }
    }

    /// Records the card now on screen.
    pub fn store_scene(&mut self, scene: Scene)
        ensures
            final(self).scene == spec_scene_byte(scene),
            final(self).have_scene,
    {
        self.scene = scene_byte(scene);
        self.have_scene = true;
    }

    /// The card last stored, or `None` before the first one.
    pub fn last_scene(&self) -> (s: Option<Scene>)
        ensures
            s == spec_last_scene(*self),
    {
        if !self.have_scene {
            return None;
        }
        from_scene_byte(self.scene)
    }
}

/// Every card's code decodes to that card.
pub proof fn law_scene_byte_round_trip(scene: Scene)
    ensures
        spec_from_scene_byte(spec_scene_byte(scene)) == Some(scene),
{
}

/// The card read back from the register is the card last stored: a
/// register in the state that [`SceneShare::store_scene`] leaves reads
/// back that card.
pub proof fn law_scene_read_back(s: SceneShare, scene: Scene)
    requires
        s.scene == spec_scene_byte(scene),
        s.have_scene,
    ensures
        spec_last_scene(s) == Some(scene),
{
}

} // verus!
