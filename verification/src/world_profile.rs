//! The world sizes a Legacy Console Edition world can be written with.
use vstd::prelude::*;
use crate::text::str_eq;

verus! {

/// A named world size: its width in chunks, nether scale and whether it is flat.
#[derive(Debug, Clone, Copy)]
pub struct WorldProfile {
    pub name: &'static str,
    pub xz_size: u32,
    pub hell_scale: u32,
    pub flat: bool,
}

/// `(xz_size, hell_scale, flat)` of the profile called `name`, if there is one.
pub open spec fn spec_profile(name: Seq<char>) -> Option<(u32, u32, bool)> {
    if name == "classic"@ {
        Some((54, 54, false))
    } else if name == "small"@ {
        Some((64, 64, false))
    } else if name == "medium"@ {
        Some((192, 192, false))
    } else if name == "large"@ {
        Some((320, 320, false))
    } else if name == "flat"@ {
        Some((54, 54, true))
    } else if name == "flat-small"@ {
        Some((64, 64, true))
    } else if name == "flat-medium"@ {
        Some((192, 192, true))
    } else if name == "flat-large"@ {
        Some((320, 320, true))
    } else {
        None
    }
}

fn profile(name: &'static str, xz_size: u32, hell_scale: u32, flat: bool) -> (r: WorldProfile)
    ensures
        r.name == name,
        r.xz_size == xz_size,
        r.hell_scale == hell_scale,
        r.flat == flat,
{
    WorldProfile { name, xz_size, hell_scale, flat }
}

/// The profile called `name`.
pub fn get_profile(name: &str) -> (r: Option<WorldProfile>)
    ensures
        r is Some <==> spec_profile(name@) is Some,
        r matches Some(p) ==> p.name@ == name@ && spec_profile(name@) == Some((p.xz_size, p.hell_scale, p.flat)),
{
    if str_eq(name, "classic") {
        Some(profile("classic", 54, 54, false))
    } else if str_eq(name, "small") {
        Some(profile("small", 64, 64, false))
    } else if str_eq(name, "medium") {
        Some(profile("medium", 192, 192, false))
    } else if str_eq(name, "large") {
        Some(profile("large", 320, 320, false))
    } else if str_eq(name, "flat") {
        Some(profile("flat", 54, 54, true))
    } else if str_eq(name, "flat-small") {
        Some(profile("flat-small", 64, 64, true))
    } else if str_eq(name, "flat-medium") {
        Some(profile("flat-medium", 192, 192, true))
    } else if str_eq(name, "flat-large") {
        Some(profile("flat-large", 320, 320, true))
    } else {
        None
    }
}

/// The block coordinate of the centre of a world `xz_size` chunks wide.
pub fn world_center_offset(xz_size: u32) -> (r: i32)
    requires
        i32::MIN <= (xz_size as i32) * 8 <= i32::MAX,
    ensures
        r == (xz_size as i32) * 8,
{
    (xz_size as i32) * 8
}

} // verus!
