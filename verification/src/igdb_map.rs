//! The mapping from the library's platform identifiers to the metadata
//! provider's numeric platform identifiers.

use vstd::prelude::*;

use crate::chars::str_eq;

verus! {

/// The fixed identifier mapping; `None` for an unknown platform. Two pairs of
/// identifiers are deliberate aliases: `genesis`/`megadrive` and `pce`/`tg16`.
pub open spec fn spec_igdb_platform_id(p: Seq<char>) -> Option<u64> {
    if p == "nes"@ {
        Some(18u64)
    } else if p == "famicom"@ {
        Some(99u64)
    } else if p == "snes"@ {
        Some(19u64)
    } else if p == "n64"@ {
        Some(4u64)
    } else if p == "gamecube"@ {
        Some(21u64)
    } else if p == "wii"@ {
        Some(5u64)
    } else if p == "wiiu"@ {
        Some(41u64)
    } else if p == "switch"@ {
        Some(130u64)
    } else if p == "gb"@ {
        Some(33u64)
    } else if p == "gbc"@ {
        Some(22u64)
    } else if p == "gba"@ {
        Some(24u64)
    } else if p == "nds"@ {
        Some(20u64)
    } else if p == "3ds"@ {
        Some(37u64)
    } else if p == "virtualboy"@ {
        Some(87u64)
    } else if p == "ps1"@ {
        Some(7u64)
    } else if p == "ps2"@ {
        Some(8u64)
    } else if p == "ps3"@ {
        Some(9u64)
    } else if p == "ps4"@ {
        Some(48u64)
    } else if p == "psp"@ {
        Some(38u64)
    } else if p == "vita"@ {
        Some(46u64)
    } else if p == "genesis"@ {
        Some(29u64)
    } else if p == "megadrive"@ {
        Some(29u64)
    } else if p == "sms"@ {
        Some(64u64)
    } else if p == "gamegear"@ {
        Some(35u64)
    } else if p == "saturn"@ {
        Some(32u64)
    } else if p == "dreamcast"@ {
        Some(23u64)
    } else if p == "segacd"@ {
        Some(78u64)
    } else if p == "32x"@ {
        Some(30u64)
    } else if p == "xbox"@ {
        Some(11u64)
    } else if p == "xbox360"@ {
        Some(12u64)
    } else if p == "xboxone"@ {
        Some(49u64)
    } else if p == "atari2600"@ {
        Some(59u64)
    } else if p == "atari7800"@ {
        Some(60u64)
    } else if p == "atarijaguar"@ {
        Some(62u64)
    } else if p == "atarilynx"@ {
        Some(61u64)
    } else if p == "neogeo"@ {
        Some(80u64)
    } else if p == "neogeocd"@ {
        Some(136u64)
    } else if p == "ngp"@ {
        Some(119u64)
    } else if p == "ngpc"@ {
        Some(120u64)
    } else if p == "pce"@ {
        Some(86u64)
    } else if p == "tg16"@ {
        Some(86u64)
    } else if p == "pcfx"@ {
        Some(274u64)
    } else if p == "arcade"@ {
        Some(52u64)
    } else if p == "dos"@ {
        Some(13u64)
    } else if p == "pc"@ {
        Some(6u64)
    } else if p == "3do"@ {
        Some(50u64)
    } else if p == "wonderswan"@ {
        Some(57u64)
    } else if p == "wonderswancolor"@ {
        Some(123u64)
    } else if p == "msx"@ {
        Some(27u64)
    } else if p == "msx2"@ {
        Some(53u64)
    } else if p == "coleco"@ {
        Some(68u64)
    } else if p == "intellivision"@ {
        Some(67u64)
    } else {
        None
    }
}

/// Maps one of the library's platform identifiers to the metadata provider's
/// numeric identifier, exactly as `spec_igdb_platform_id` states it.
pub fn get_igdb_platform_id(platform_id: &str) -> (r: Option<u64>)
    ensures
        r == spec_igdb_platform_id(platform_id@),
{
    if str_eq(platform_id, "nes") {
        Some(18)
    } else if str_eq(platform_id, "famicom") {
        Some(99)
    } else if str_eq(platform_id, "snes") {
        Some(19)
    } else if str_eq(platform_id, "n64") {
        Some(4)
    } else if str_eq(platform_id, "gamecube") {
        Some(21)
    } else if str_eq(platform_id, "wii") {
        Some(5)
    } else if str_eq(platform_id, "wiiu") {
        Some(41)
    } else if str_eq(platform_id, "switch") {
        Some(130)
    } else if str_eq(platform_id, "gb") {
        Some(33)
    } else if str_eq(platform_id, "gbc") {
        Some(22)
    } else if str_eq(platform_id, "gba") {
        Some(24)
    } else if str_eq(platform_id, "nds") {
        Some(20)
    } else if str_eq(platform_id, "3ds") {
        Some(37)
    } else if str_eq(platform_id, "virtualboy") {
        Some(87)
    } else if str_eq(platform_id, "ps1") {
        Some(7)
    } else if str_eq(platform_id, "ps2") {
        Some(8)
    } else if str_eq(platform_id, "ps3") {
        Some(9)
    } else if str_eq(platform_id, "ps4") {
        Some(48)
    } else if str_eq(platform_id, "psp") {
        Some(38)
    } else if str_eq(platform_id, "vita") {
        Some(46)
    } else if str_eq(platform_id, "genesis") {
        Some(29)
    } else if str_eq(platform_id, "megadrive") {
        Some(29)
    } else if str_eq(platform_id, "sms") {
        Some(64)
    } else if str_eq(platform_id, "gamegear") {
        Some(35)
    } else if str_eq(platform_id, "saturn") {
        Some(32)
    } else if str_eq(platform_id, "dreamcast") {
        Some(23)
    } else if str_eq(platform_id, "segacd") {
        Some(78)
    } else if str_eq(platform_id, "32x") {
        Some(30)
    } else if str_eq(platform_id, "xbox") {
        Some(11)
    } else if str_eq(platform_id, "xbox360") {
        Some(12)
    } else if str_eq(platform_id, "xboxone") {
        Some(49)
    } else if str_eq(platform_id, "atari2600") {
        Some(59)
    } else if str_eq(platform_id, "atari7800") {
        Some(60)
    } else if str_eq(platform_id, "atarijaguar") {
        Some(62)
    } else if str_eq(platform_id, "atarilynx") {
        Some(61)
    } else if str_eq(platform_id, "neogeo") {
        Some(80)
    } else if str_eq(platform_id, "neogeocd") {
        Some(136)
    } else if str_eq(platform_id, "ngp") {
        Some(119)
    } else if str_eq(platform_id, "ngpc") {
        Some(120)
    } else if str_eq(platform_id, "pce") {
        Some(86)
    } else if str_eq(platform_id, "tg16") {
        Some(86)
    } else if str_eq(platform_id, "pcfx") {
        Some(274)
    } else if str_eq(platform_id, "arcade") {
        Some(52)
    } else if str_eq(platform_id, "dos") {
        Some(13)
    } else if str_eq(platform_id, "pc") {
        Some(6)
    } else if str_eq(platform_id, "3do") {
        Some(50)
    } else if str_eq(platform_id, "wonderswan") {
        Some(57)
    } else if str_eq(platform_id, "wonderswancolor") {
        Some(123)
    } else if str_eq(platform_id, "msx") {
        Some(27)
    } else if str_eq(platform_id, "msx2") {
        Some(53)
    } else if str_eq(platform_id, "coleco") {
        Some(68)
    } else if str_eq(platform_id, "intellivision") {
        Some(67)
    } else {
        None
    }
}

} // verus!
