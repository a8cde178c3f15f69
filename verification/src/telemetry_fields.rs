//! Decoding of the integer-coded telemetry fields: neighbour indicator, engine
//! warnings, session flags, and the labels shown for gear, sky and track surface.

use crate::text::{decimal_string, decimal_text, push_zero_padded, zero_padded};
use vstd::prelude::*;
use vstd::string::StringExecFns;

verus! {

/// Session flag bit: checkered flag.
pub const FLAG_CHECKERED: u32 = 0x0000_0001;

/// Session flag bit: white flag.
pub const FLAG_WHITE: u32 = 0x0000_0002;

/// Session flag bit: green flag.
pub const FLAG_GREEN: u32 = 0x0000_0004;

/// Session flag bit: yellow flag.
pub const FLAG_YELLOW: u32 = 0x0000_0008;

/// Session flag bit: red flag.
pub const FLAG_RED: u32 = 0x0000_0010;

/// Session flag bit: blue flag.
pub const FLAG_BLUE: u32 = 0x0000_0020;

/// Session flag bit: black flag.
pub const FLAG_BLACK: u32 = 0x0000_0040;

/// Session flag bit: black and white flag.
pub const FLAG_BLACK_WHITE: u32 = 0x0000_0080;

/// Engine warning bit: water temperature.
pub const ENGINE_WATER_TEMP_WARNING: u32 = 0x0001;

/// Engine warning bit: fuel pressure.
pub const ENGINE_FUEL_PRESSURE_WARNING: u32 = 0x0002;

/// Engine warning bit: oil pressure.
pub const ENGINE_OIL_PRESSURE_WARNING: u32 = 0x0004;

/// Engine warning bit: engine stalled.
pub const ENGINE_STALLED: u32 = 0x0008;

/// Engine warning bit: pit speed limiter on.
pub const ENGINE_PIT_SPEED_LIMITER: u32 = 0x0010;

/// Engine warning bit: rev limiter active.
pub const ENGINE_REV_LIMITER_ACTIVE: u32 = 0x0020;

/// Engine warning bit: oil temperature.
pub const ENGINE_OIL_TEMP_WARNING: u32 = 0x0040;

/// Some bit of `mask` is set in `bits`.
pub open spec fn has_flag(bits: u32, mask: u32) -> bool {
    bits & mask != 0
}

/// Which cars are beside the player's car.
#[derive(Clone, Copy, Debug, PartialEq, Eq, Structural)]
pub enum CarLeftRight {
    /// The indicator is off.
    Off,
    /// No car is beside us.
    Clear,
    /// A car is on our left.
    CarLeft,
    /// A car is on our right.
    CarRight,
    /// A car is on each side.
    CarLeftRight,
    /// Two cars are on our left.
    TwoCarsLeft,
    /// Two cars are on our right.
    TwoCarsRight,
}

impl Default for CarLeftRight {
    fn default() -> (indicator: Self)
        ensures
            indicator == CarLeftRight::Off,
    {
        CarLeftRight::Off
    }
}

impl CarLeftRight {
    /// The indicator that the raw telemetry code stands for; a code outside 0 to 6
    /// reads as `Off`.
    pub open spec fn spec_from_raw(raw: i32) -> CarLeftRight {
        if raw == 1 {
            CarLeftRight::Clear
        } else if raw == 2 {
            CarLeftRight::CarLeft
        } else if raw == 3 {
            CarLeftRight::CarRight
        } else if raw == 4 {
            CarLeftRight::CarLeftRight
        } else if raw == 5 {
            CarLeftRight::TwoCarsLeft
        } else if raw == 6 {
            CarLeftRight::TwoCarsRight
        } else {
            CarLeftRight::Off
        }
    }

    /// The raw telemetry code of an indicator.
    pub open spec fn spec_raw(self) -> i32 {
        match self {
            CarLeftRight::Off => 0,
            CarLeftRight::Clear => 1,
            CarLeftRight::CarLeft => 2,
            CarLeftRight::CarRight => 3,
            CarLeftRight::CarLeftRight => 4,
            CarLeftRight::TwoCarsLeft => 5,
            CarLeftRight::TwoCarsRight => 6,
        }
    }

    /// Decodes the raw telemetry code.
    pub fn from_raw(raw: i32) -> (indicator: CarLeftRight)
        ensures
            indicator == Self::spec_from_raw(raw),
            0 <= raw <= 6 ==> indicator.spec_raw() == raw,
            !(0 <= raw <= 6) ==> indicator == CarLeftRight::Off,
    {
        match raw {
            1 => CarLeftRight::Clear,
            2 => CarLeftRight::CarLeft,
            3 => CarLeftRight::CarRight,
            4 => CarLeftRight::CarLeftRight,
            5 => CarLeftRight::TwoCarsLeft,
            6 => CarLeftRight::TwoCarsRight,
            _ => CarLeftRight::Off,
        }
    }

    /// The raw telemetry code of this indicator.
    pub fn raw(&self) -> (code: i32)
        ensures
            code == self.spec_raw(),
            Self::spec_from_raw(code) == *self,
    {
        match self {
            CarLeftRight::Off => 0,
            CarLeftRight::Clear => 1,
            CarLeftRight::CarLeft => 2,
            CarLeftRight::CarRight => 3,
            CarLeftRight::CarLeftRight => 4,
            CarLeftRight::TwoCarsLeft => 5,
            CarLeftRight::TwoCarsRight => 6,
        }
    }

    /// The words shown for this indicator.
    pub open spec fn spec_label(self) -> Seq<char> {
        match self {
            CarLeftRight::Off => "Off"@,
            CarLeftRight::Clear => "Clear"@,
            CarLeftRight::CarLeft => "Car Left"@,
            CarLeftRight::CarRight => "Car Right"@,
            CarLeftRight::CarLeftRight => "Cars Left & Right"@,
            CarLeftRight::TwoCarsLeft => "Two Cars Left"@,
            CarLeftRight::TwoCarsRight => "Two Cars Right"@,
        }
    }

    /// The words shown for this indicator.
    pub fn label(&self) -> (text: &'static str)
        ensures
            text@ == self.spec_label(),
    {
        match self {
            CarLeftRight::Off => "Off",
            CarLeftRight::Clear => "Clear",
            CarLeftRight::CarLeft => "Car Left",
            CarLeftRight::CarRight => "Car Right",
            CarLeftRight::CarLeftRight => "Cars Left & Right",
            CarLeftRight::TwoCarsLeft => "Two Cars Left",
            CarLeftRight::TwoCarsRight => "Two Cars Right",
        }
    }
}

/// The engine warnings of one telemetry sample, one flag per warning bit.
#[derive(Clone, Copy, Debug, PartialEq, Eq, Structural)]
pub struct EngineWarnings {
    /// Water temperature too high.
    pub water_temp_warning: bool,
    /// Fuel pressure too low.
    pub fuel_pressure_warning: bool,
    /// Oil pressure too low.
    pub oil_pressure_warning: bool,
    /// The engine has stalled.
    pub engine_stalled: bool,
    /// The pit speed limiter is on.
    pub pit_speed_limiter: bool,
    /// The rev limiter is active.
    pub rev_limiter_active: bool,
    /// Oil temperature too high.
    pub oil_temp_warning: bool,
    /// The warning bits as they came.
    pub raw_value: u32,
}

impl Default for EngineWarnings {
    fn default() -> (warnings: Self)
        ensures
            warnings == EngineWarnings::spec_from_bits(0),
            !warnings.water_temp_warning,
            !warnings.fuel_pressure_warning,
            !warnings.oil_pressure_warning,
            !warnings.engine_stalled,
            !warnings.pit_speed_limiter,
            !warnings.rev_limiter_active,
            !warnings.oil_temp_warning,
            warnings.raw_value == 0,
    {
        assert(forall|mask: u32| 0u32 & mask == 0) by (bit_vector);
        EngineWarnings {
            water_temp_warning: false,
            fuel_pressure_warning: false,
            oil_pressure_warning: false,
            engine_stalled: false,
            pit_speed_limiter: false,
            rev_limiter_active: false,
            oil_temp_warning: false,
            raw_value: 0,
        }
    }
}

impl EngineWarnings {
    /// The warnings that the bits `raw` stand for.
    pub open spec fn spec_from_bits(raw: u32) -> EngineWarnings {
        EngineWarnings {
            water_temp_warning: has_flag(raw, ENGINE_WATER_TEMP_WARNING),
            fuel_pressure_warning: has_flag(raw, ENGINE_FUEL_PRESSURE_WARNING),
            oil_pressure_warning: has_flag(raw, ENGINE_OIL_PRESSURE_WARNING),
            engine_stalled: has_flag(raw, ENGINE_STALLED),
            pit_speed_limiter: has_flag(raw, ENGINE_PIT_SPEED_LIMITER),
            rev_limiter_active: has_flag(raw, ENGINE_REV_LIMITER_ACTIVE),
            oil_temp_warning: has_flag(raw, ENGINE_OIL_TEMP_WARNING),
            raw_value: raw,
        }
    }

    /// The flags say what the raw bits say.
    pub open spec fn is_consistent(self) -> bool {
        self == Self::spec_from_bits(self.raw_value)
    }

    /// Decodes the warning bits.
    pub fn from_bits(raw: u32) -> (warnings: EngineWarnings)
        ensures
            warnings == Self::spec_from_bits(raw),
            warnings.is_consistent(),
    {
        EngineWarnings {
            water_temp_warning: (raw & ENGINE_WATER_TEMP_WARNING) != 0,
            fuel_pressure_warning: (raw & ENGINE_FUEL_PRESSURE_WARNING) != 0,
            oil_pressure_warning: (raw & ENGINE_OIL_PRESSURE_WARNING) != 0,
            engine_stalled: (raw & ENGINE_STALLED) != 0,
            pit_speed_limiter: (raw & ENGINE_PIT_SPEED_LIMITER) != 0,
            rev_limiter_active: (raw & ENGINE_REV_LIMITER_ACTIVE) != 0,
            oil_temp_warning: (raw & ENGINE_OIL_TEMP_WARNING) != 0,
            raw_value: raw,
        }
    }
}

/// The name of a raised flag, or nothing where the flag is down.
pub open spec fn flag_name_if(bits: u32, mask: u32, name: Seq<char>) -> Seq<Seq<char>> {
    if has_flag(bits, mask) {
        seq![name]
    } else {
        seq![]
    }
}

/// The names of the flags raised in `bits`, in the order in which they are shown:
/// green, yellow, red, blue, white, checkered, black, black and white.
pub open spec fn spec_active_flags(bits: u32) -> Seq<Seq<char>> {
    flag_name_if(bits, FLAG_GREEN, "GREEN FLAG"@) + flag_name_if(bits, FLAG_YELLOW, "YELLOW FLAG"@)
        + flag_name_if(bits, FLAG_RED, "RED FLAG"@) + flag_name_if(bits, FLAG_BLUE, "BLUE FLAG"@)
        + flag_name_if(bits, FLAG_WHITE, "WHITE FLAG"@) + flag_name_if(
        bits,
        FLAG_CHECKERED,
        "CHECKERED FLAG"@,
    ) + flag_name_if(bits, FLAG_BLACK, "BLACK FLAG"@) + flag_name_if(
        bits,
        FLAG_BLACK_WHITE,
        "BLACK/WHITE FLAG"@,
    )
}

/// The texts of `names`, one by one.
pub open spec fn texts(names: Seq<String>) -> Seq<Seq<char>> {
    Seq::new(names.len(), |i: int| names[i]@)
}

/// Adds `name` to `names` where a bit of `mask` is set in `bits`.
fn push_flag_name(names: &mut Vec<String>, bits: u32, mask: u32, name: &str)
    ensures
        texts(final(names)@) == texts(old(names)@) + flag_name_if(bits, mask, name@),
{
    if bits & mask != 0 {
        names.push(String::from_str(name));
    }
    assert(texts(names@) =~= texts(old(names)@) + flag_name_if(bits, mask, name@));
}

/// The names of the session flags that are raised.
pub fn active_flags(session_flags: u32) -> (names: Vec<String>)
    ensures
        texts(names@) == spec_active_flags(session_flags),
{
    let mut names: Vec<String> = Vec::new();
    assert(texts(names@) =~= Seq::<Seq<char>>::empty());
    push_flag_name(&mut names, session_flags, FLAG_GREEN, "GREEN FLAG");
    push_flag_name(&mut names, session_flags, FLAG_YELLOW, "YELLOW FLAG");
    push_flag_name(&mut names, session_flags, FLAG_RED, "RED FLAG");
    push_flag_name(&mut names, session_flags, FLAG_BLUE, "BLUE FLAG");
    push_flag_name(&mut names, session_flags, FLAG_WHITE, "WHITE FLAG");
    push_flag_name(&mut names, session_flags, FLAG_CHECKERED, "CHECKERED FLAG");
    push_flag_name(&mut names, session_flags, FLAG_BLACK, "BLACK FLAG");
    push_flag_name(&mut names, session_flags, FLAG_BLACK_WHITE, "BLACK/WHITE FLAG");
    assert(texts(names@) =~= spec_active_flags(session_flags));
    names
}

/// The gear as shown: `R` for reverse, `N` for neutral, else the number.
pub open spec fn spec_gear_label(gear: i32) -> Seq<char> {
    if gear == -1 {
        "R"@
    } else if gear == 0 {
        "N"@
    } else {
        decimal_text(gear as int)
    }
}

/// The gear as shown: `R` for reverse, `N` for neutral, else the number.
pub fn gear_label(gear: i32) -> (label: String)
    ensures
        label@ == spec_gear_label(gear),
{
    if gear == -1 {
        String::from_str("R")
    } else if gear == 0 {
        String::from_str("N")
    } else {
        decimal_string(gear as i64)
    }
}

/// The sky as shown.
pub open spec fn spec_skies_label(skies: i32) -> Seq<char> {
    if skies == 0 {
        "Clear"@
    } else if skies == 1 {
        "Partly Cloudy"@
    } else if skies == 2 {
        "Mostly Cloudy"@
    } else if skies == 3 {
        "Overcast"@
    } else {
        "Unknown"@
    }
}

/// The sky as shown.
pub fn skies_label(skies: i32) -> (label: &'static str)
    ensures
        label@ == spec_skies_label(skies),
{
    match skies {
        0 => "Clear",
        1 => "Partly Cloudy",
        2 => "Mostly Cloudy",
        3 => "Overcast",
        _ => "Unknown",
    }
}

/// The ground under a car that is off the track, by its material code.
pub open spec fn spec_material_label(material: i32) -> Seq<char> {
    if material == 0 {
        "Asphalt (off track)"@
    } else if material == 1 {
        "Concrete (off track)"@
    } else if material == 2 {
        "Dirt"@
    } else if material == 3 || material == 15 || material == 16 {
        "Grass"@
    } else if material == 4 || material == 19 {
        "Sand"@
    } else if material == 5 || material == 24 {
        "Gravel"@
    } else if material == 6 {
        "Rumble Strip"@
    } else if material == 7 {
        "Water"@
    } else {
        "Surface Material "@ + decimal_text(material as int)
    }
}

/// Where the player's car is, by its surface code alone.
pub open spec fn spec_surface_label(surface: i32) -> Seq<char> {
    if surface == 0 {
        "Off track"@
    } else if surface == 1 {
        "In pit stall"@
    } else if surface == 2 {
        "Pit lane"@
    } else if surface == 3 {
        "On track"@
    } else if surface == 4 {
        "Not in world"@
    } else {
        "Unknown ("@ + decimal_text(surface as int) + ")"@
    }
}

/// Where the player's car is: off the track and with the material known, the ground
/// it is on; else what the surface code says.
pub open spec fn spec_track_surface_label(surface: i32, material: Option<i32>) -> Seq<char> {
    if surface == 0 && material is Some {
        spec_material_label(material.unwrap())
    } else {
        spec_surface_label(surface)
    }
}

/// The ground under a car that is off the track.
pub fn material_label(material: i32) -> (label: String)
    ensures
        label@ == spec_material_label(material),
{
    match material {
        0 => String::from_str("Asphalt (off track)"),
        1 => String::from_str("Concrete (off track)"),
        2 => String::from_str("Dirt"),
        3 | 15 | 16 => String::from_str("Grass"),
        4 | 19 => String::from_str("Sand"),
        5 | 24 => String::from_str("Gravel"),
        6 => String::from_str("Rumble Strip"),
        7 => String::from_str("Water"),
        _ => {
            let number = decimal_string(material as i64);
            String::from_str("Surface Material ").concat(number.as_str())
        },
    }
}

/// Where the player's car is, with the material of the ground where it is off the track.
pub fn track_surface_label(surface: i32, material: Option<i32>) -> (label: String)
    ensures
        label@ == spec_track_surface_label(surface, material),
{
    match (surface, material) {
        (0, Some(m)) => material_label(m),
        (0, None) => String::from_str("Off track"),
        (1, _) => String::from_str("In pit stall"),
        (2, _) => String::from_str("Pit lane"),
        (3, _) => String::from_str("On track"),
        (4, _) => String::from_str("Not in world"),
        _ => {
            let number = decimal_string(surface as i64);
            String::from_str("Unknown (").concat(number.as_str()).concat(")")
        },
    }
}

/// A lap time as shown, `MM:SS.mmm`, from its length in milliseconds; `N/A` where
/// there is none.
pub open spec fn spec_lap_time_text(millis: i64) -> Seq<char> {
    if millis <= 0 {
        "N/A"@
    } else {
        zero_padded((millis / 60_000) as nat, 2) + seq![':'] + zero_padded(
            ((millis % 60_000) / 1_000) as nat,
            2,
        ) + seq!['.'] + zero_padded((millis % 1_000) as nat, 3)
    }
}

/// A lap time as shown: minutes, seconds and milliseconds, or `N/A` where the time
/// is not positive.
pub fn format_lap_time(millis: i64) -> (text: String)
    ensures
        text@ == spec_lap_time_text(millis),
{
    if millis <= 0 {
        return String::from_str("N/A");
    }
    let total: u64 = millis as u64;
    proof {
        reveal_strlit(":");
        reveal_strlit(".");
    }
    let mut text = String::new();
    push_zero_padded(&mut text, total / 60_000, 2);
    text.append(":");
    push_zero_padded(&mut text, (total % 60_000) / 1_000, 2);
    text.append(".");
    push_zero_padded(&mut text, total % 1_000, 3);
    assert(text@ =~= spec_lap_time_text(millis));
    text
}

} // verus!
