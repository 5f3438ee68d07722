//! Tagged host-object values: a type tag plus the raw address of an
//! externally-owned memory block, with checked coercion. The library never
//! dereferences such an address; callers that do own that step.

use vstd::prelude::*;

verus! {

/// Type tags of host objects carried through the interpreter as tagged
/// userdata. The numeric code of each tag is fixed by the host; see `code`.
#[derive(Debug, Clone, Copy, PartialEq, Eq, Structural, Hash, PartialOrd, Ord)]
pub enum UserData {
    Missing,
    Nil,
    Bool,
    LightUserData,
    Number,
    Str,
    Table,
    Function,
    UserData,
    Thread,
    Entity,
    Vector,
    Angle,
    PhysObj,
    Save,
    Restore,
    DamageInfo,
    EffectData,
    MoveData,
    RecipientFilter,
    UserCmd,
    ScriptedVehicle,
    Material,
    Panel,
    Particle,
    ParticleEmitter,
    Texture,
    UserMsg,
    ConVar,
    IMesh,
    Matrix,
    Sound,
    PixelVisHandle,
    DLight,
    Video,
    File,
    Locomotion,
    Path,
    NavArea,
    SoundHandle,
    NavLadder,
    ParticleSystem,
    ProjectedTexture,
    PhysCollide,
    SurfaceInfo,
    MAX,
}

/// The numeric code the host uses for each tag: `Missing` is the sentinel
/// 255, the rest count up from zero in declaration order.
pub open spec fn spec_user_data_code(u: UserData) -> u8 {
    match u {
        UserData::Missing => 255,
        UserData::Nil => 0,
        UserData::Bool => 1,
        UserData::LightUserData => 2,
        UserData::Number => 3,
        UserData::Str => 4,
        UserData::Table => 5,
        UserData::Function => 6,
        UserData::UserData => 7,
        UserData::Thread => 8,
        UserData::Entity => 9,
        UserData::Vector => 10,
        UserData::Angle => 11,
        UserData::PhysObj => 12,
        UserData::Save => 13,
        UserData::Restore => 14,
        UserData::DamageInfo => 15,
        UserData::EffectData => 16,
        UserData::MoveData => 17,
        UserData::RecipientFilter => 18,
        UserData::UserCmd => 19,
        UserData::ScriptedVehicle => 20,
        UserData::Material => 21,
        UserData::Panel => 22,
        UserData::Particle => 23,
        UserData::ParticleEmitter => 24,
        UserData::Texture => 25,
        UserData::UserMsg => 26,
        UserData::ConVar => 27,
        UserData::IMesh => 28,
        UserData::Matrix => 29,
        UserData::Sound => 30,
        UserData::PixelVisHandle => 31,
        UserData::DLight => 32,
        UserData::Video => 33,
        UserData::File => 34,
        UserData::Locomotion => 35,
        UserData::Path => 36,
        UserData::NavArea => 37,
        UserData::SoundHandle => 38,
        UserData::NavLadder => 39,
        UserData::ParticleSystem => 40,
        UserData::ProjectedTexture => 41,
        UserData::PhysCollide => 42,
        UserData::SurfaceInfo => 43,
        UserData::MAX => 44,
    }
}

impl UserData {
    /// The numeric code the host uses for this tag.
    pub fn code(self) -> (r: u8)
        ensures
            r == spec_user_data_code(self),
    {
        match self {
            UserData::Missing => 255,
            UserData::Nil => 0,
            UserData::Bool => 1,
            UserData::LightUserData => 2,
            UserData::Number => 3,
            UserData::Str => 4,
            UserData::Table => 5,
            UserData::Function => 6,
            UserData::UserData => 7,
            UserData::Thread => 8,
            UserData::Entity => 9,
            UserData::Vector => 10,
            UserData::Angle => 11,
            UserData::PhysObj => 12,
            UserData::Save => 13,
            UserData::Restore => 14,
            UserData::DamageInfo => 15,
            UserData::EffectData => 16,
            UserData::MoveData => 17,
            UserData::RecipientFilter => 18,
            UserData::UserCmd => 19,
            UserData::ScriptedVehicle => 20,
            UserData::Material => 21,
            UserData::Panel => 22,
            UserData::Particle => 23,
            UserData::ParticleEmitter => 24,
            UserData::Texture => 25,
            UserData::UserMsg => 26,
            UserData::ConVar => 27,
            UserData::IMesh => 28,
            UserData::Matrix => 29,
            UserData::Sound => 30,
            UserData::PixelVisHandle => 31,
            UserData::DLight => 32,
            UserData::Video => 33,
            UserData::File => 34,
            UserData::Locomotion => 35,
            UserData::Path => 36,
            UserData::NavArea => 37,
            UserData::SoundHandle => 38,
            UserData::NavLadder => 39,
            UserData::ParticleSystem => 40,
            UserData::ProjectedTexture => 41,
            UserData::PhysCollide => 42,
            UserData::SurfaceInfo => 43,
            UserData::MAX => 44,
        }
    }
}

/// Types a tagged userdata may be coerced to. Implementations live with the
/// concrete host-object layouts; the tag that identifies each such type is
/// fixed by `coercible`.
pub trait CoercibleUserData {

}

/// Tags whose payload this library knows how to hand out for coercion.
pub open spec fn spec_coercible(tag: UserData) -> bool {
    tag == UserData::Vector || tag == UserData::Angle
}

/// A host value seen as a type tag plus the raw address of the
/// externally-owned block: never dereferenced here, only carried and
/// checked.
#[derive(Debug, Clone, Copy, PartialEq, Eq, Structural, Hash)]
pub struct TaggedUserData {
    pub data: usize,
    pub tag: UserData,
}

impl TaggedUserData {
    /// Checked coercion: hands out the address exactly when the tag is one
    /// the library can coerce, and otherwise reports the offending tag.
    pub fn coerce_check(&self) -> (r: Result<usize, UserData>)
        ensures
            spec_coercible(self.tag) ==> r == Result::<usize, UserData>::Ok(self.data),
            !spec_coercible(self.tag) ==> r == Result::<usize, UserData>::Err(self.tag),
    {
        match self.tag {
            UserData::Vector => Ok(self.data),
            UserData::Angle => Ok(self.data),
            _ => Err(self.tag),
        }
    }
}

} // verus!
