//! The battery provider: charge, state and power draw of the first battery.

use vstd::prelude::*;
use super::{Provider, ProviderResult, defaults_views};
use crate::numbers::{dec_string, u64_to_string};
use crate::config::SectionDefaults;
use crate::text::{chars_of, string_from, str_views, extend, owned};
use crate::vars::Vars;

verus! {

broadcast use vstd::string::group_string_axioms;

/// The provider of `battery_percentage`, `battery_status` and `battery_power`.
pub struct BatteryProvider;

/// The charging state of a battery.
#[derive(Debug, Clone, Copy, PartialEq, Eq, Structural)]
pub enum ChargeState {
    Charging,
    Discharging,
    Full,
    Empty,
    Unknown,
}

/// The name shown for a charging state.
pub open spec fn state_name(s: ChargeState) -> Seq<char> {
    match s {
        ChargeState::Charging => "Charging"@,
        ChargeState::Discharging => "Discharging"@,
        ChargeState::Full => "Full"@,
        ChargeState::Empty => "Empty"@,
        ChargeState::Unknown => "Unknown"@,
    }
}

/// What was read from the first battery: the charge in percent, the state, and the power
/// draw already written as text (`+45.0W` charging, `-15.0W` discharging) where it is
/// noticeable.
pub struct BatteryReading {
    pub percentage: u8,
    pub state: ChargeState,
    pub power: Option<String>,
}

/// The battery variables of a reading, in order: percentage (`87%`), status, and the
/// power draw where there is one; none without a battery.
pub open spec fn battery_entries(reading: Option<BatteryReading>) -> Seq<(Seq<char>, Seq<char>)> {
    match reading {
        Some(r) => seq![
            ("battery_percentage"@, dec_string(r.percentage as nat) + "%"@),
            ("battery_status"@, state_name(r.state)),
        ] + (match r.power {
            Some(p) => seq![("battery_power"@, p@)],
            None => Seq::empty(),
        }),
        None => Seq::empty(),
    }
}

/// The name shown for a charging state.
pub fn status_name(s: ChargeState) -> (out: String)
    ensures
        out@ == state_name(s),
{
    match s {
        ChargeState::Charging => owned("Charging"),
        ChargeState::Discharging => owned("Discharging"),
        ChargeState::Full => owned("Full"),
        ChargeState::Empty => owned("Empty"),
        ChargeState::Unknown => owned("Unknown"),
    }
}

impl BatteryProvider {
    pub fn new() -> (p: Self) {
        BatteryProvider
    }

    /// The battery variables of a reading (no variables without a battery).
    pub fn collect(&self, reading: Option<BatteryReading>) -> (r: ProviderResult<Vars>)
        ensures
            r matches Ok(v) && v@ == battery_entries(reading),
    {
        let mut vars = Vars::new();
        match reading {
            Some(rd) => {
                let mut p = chars_of(u64_to_string(rd.percentage as u64).as_str());
                extend(&mut p, &chars_of("%"));
                vars.insert(owned("battery_percentage"), string_from(&p));
                vars.insert(owned("battery_status"), status_name(rd.state));
                match rd.power {
                    Some(pw) => {
                        vars.insert(owned("battery_power"), pw);
                    },
                    None => {},
                }
            },
            None => {},
        }
        Ok(vars)
    }
}

impl Provider for BatteryProvider {
    open spec fn name_spec(&self) -> Seq<char> {
        "battery"@
    }

    open spec fn sections_spec(&self) -> Seq<Seq<char>> {
        seq!["battery"@]
    }

    open spec fn defaults_spec(&self) -> Seq<(Seq<char>, (nat, Seq<char>, bool))> {
        seq![("battery"@, (0, Seq::empty(), false))]
    }

    open spec fn cacheable_spec(&self) -> bool {
        true
    }

    open spec fn cache_duration_spec(&self) -> u64 {
        30
    }

    fn name(&self) -> (s: &str) {
        "battery"
    }

    fn sections(&self) -> (v: Vec<&str>) {
        let v = vec!["battery"];
        assert(str_views(v@) =~= seq!["battery"@]);
        v
    }

    fn default_config(&self) -> (d: Vec<(String, SectionDefaults)>) {
        let d = vec![(string_from(&chars_of("battery")), SectionDefaults::Empty)];
        assert(defaults_views(d@) =~= self.defaults_spec());
        d
    }

    fn cacheable(&self) -> (b: bool) {
        true
    }

    fn cache_duration(&self) -> (d: u64) {
        30
    }
}

} // verus!
