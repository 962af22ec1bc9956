//! The display hue of a source, derived from its identifier alone.
use vstd::prelude::*;

verus! {

/// The factor that spreads consecutive hashes over the colour wheel.
pub const HUE_STRIDE: u64 = 79;

/// Degrees in a full turn of the colour wheel.
pub const FULL_TURN: u64 = 360;

/// The hue, in whole degrees, that a source whose identifier hashes to
/// `hash` is drawn in: the hash times the stride, wrapped at 2^64, then
/// taken modulo a full turn.
pub open spec fn hue_spec(hash: u64) -> nat {
    ((hash as nat * HUE_STRIDE as nat) % 0x1_0000_0000_0000_0000) % FULL_TURN as nat
}

/// The hue, in whole degrees, for an identifier hash.
pub fn hue_of_hash(hash: u64) -> (r: u64)
    ensures
        r == hue_spec(hash),
        r < FULL_TURN,
{
    hash.wrapping_mul(HUE_STRIDE) % FULL_TURN
}

/// The 64-bit FxHash of an identifier's UTF-8 bytes.
pub uninterp spec fn fx_hash_of(s: Seq<char>) -> u64;

/// Relies on fxhash::hash64: an unseeded hash of the identifier's bytes,
/// whose byte order is fixed by the compile target, so that within one build
/// the same identifier always hashes alike.
#[verifier::external_body]
fn name_hash(name: &str) -> (r: u64)
    ensures
        r == fx_hash_of(name@),
{
    fxhash::hash64(name)
}

/// The hue, in whole degrees, that the source named `name` is drawn in: the
/// hue of the identifier's hash.
pub fn hue_for_name(name: &str) -> (r: u64)
    ensures
        r == hue_spec(fx_hash_of(name@)),
        r < FULL_TURN,
{
    let hash = name_hash(name);
    hue_of_hash(hash)
}

/// The hue of a source depends on its identifier alone: equal identifiers
/// are drawn in the same hue.
pub proof fn lemma_hue_depends_on_name_only(a: Seq<char>, b: Seq<char>)
    requires
        a == b,
    ensures
        hue_spec(fx_hash_of(a)) == hue_spec(fx_hash_of(b)),
        hue_spec(fx_hash_of(a)) < FULL_TURN,
{
}

} // verus!
