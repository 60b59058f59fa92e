//! The pins that clients can name.

use vstd::prelude::*;
use vstd::string::*;

use crate::text;

verus! {

/// A pin with a name.
#[derive(Debug, Clone, Copy, PartialEq, Eq, Structural)]
pub enum GpioPin {
    D2,
    D3,
    D4,
    D5,
    McuRst,
    Sw,
    Led,
    SpeakerEn,
}

/// The pin that a name stands for.
pub open spec fn pin_named(name: Seq<char>) -> Option<GpioPin> {
    if name == "D2"@ {
        Some(GpioPin::D2)
    } else if name == "D3"@ {
        Some(GpioPin::D3)
    } else if name == "D4"@ {
        Some(GpioPin::D4)
    } else if name == "D5"@ {
        Some(GpioPin::D5)
    } else if name == "MCURST"@ {
        Some(GpioPin::McuRst)
    } else if name == "SW"@ {
        Some(GpioPin::Sw)
    } else if name == "LED"@ {
        Some(GpioPin::Led)
    } else if name == "SPEAKER_EN"@ {
        Some(GpioPin::SpeakerEn)
    } else {
        None
    }
}

impl GpioPin {
    /// The name of the pin.
    pub open spec fn name_of(self) -> Seq<char> {
        match self {
            GpioPin::D2 => "D2"@,
            GpioPin::D3 => "D3"@,
            GpioPin::D4 => "D4"@,
            GpioPin::D5 => "D5"@,
            GpioPin::McuRst => "MCURST"@,
            GpioPin::Sw => "SW"@,
            GpioPin::Led => "LED"@,
            GpioPin::SpeakerEn => "SPEAKER_EN"@,
        }
    }

    /// The pin that a name stands for.
    pub fn from_name(name: &str) -> (r: Option<GpioPin>)
        ensures
            r == pin_named(name@),
    {
        if text::same_text(name, "D2") {
            Some(GpioPin::D2)
        } else if text::same_text(name, "D3") {
            Some(GpioPin::D3)
        } else if text::same_text(name, "D4") {
            Some(GpioPin::D4)
        } else if text::same_text(name, "D5") {
            Some(GpioPin::D5)
        } else if text::same_text(name, "MCURST") {
            Some(GpioPin::McuRst)
        } else if text::same_text(name, "SW") {
            Some(GpioPin::Sw)
        } else if text::same_text(name, "LED") {
            Some(GpioPin::Led)
        } else if text::same_text(name, "SPEAKER_EN") {
            Some(GpioPin::SpeakerEn)
        } else {
            None
        }
    }

    /// The name of the pin.
    pub fn name(&self) -> (r: &'static str)
        ensures
            r@ == self.name_of(),
    {
        match self {
            GpioPin::D2 => "D2",
            GpioPin::D3 => "D3",
            GpioPin::D4 => "D4",
            GpioPin::D5 => "D5",
            GpioPin::McuRst => "MCURST",
            GpioPin::Sw => "SW",
            GpioPin::Led => "LED",
            GpioPin::SpeakerEn => "SPEAKER_EN",
        }
    }
}

/// A pin is found under its own name, and under no other.
pub proof fn law_pin_names(pin: GpioPin, name: Seq<char>)
    ensures
        pin_named(pin.name_of()) == Some(pin),
        pin_named(name) == Some(pin) ==> name == pin.name_of(),
{
    reveal_strlit("D2");
    reveal_strlit("D3");
    reveal_strlit("D4");
    reveal_strlit("D5");
    reveal_strlit("MCURST");
    reveal_strlit("SW");
    reveal_strlit("LED");
    reveal_strlit("SPEAKER_EN");
    let n = pin.name_of();
    assert(n.len() == 2 || n.len() == 3 || n.len() == 6 || n.len() == 10);
    assert("D2"@[1] != "D3"@[1] && "D2"@[1] != "D4"@[1] && "D2"@[1] != "D5"@[1] && "D2"@[1]
        != "SW"@[1]);
    assert("D3"@[1] != "D4"@[1] && "D3"@[1] != "D5"@[1] && "D3"@[1] != "SW"@[1]);
    assert("D4"@[1] != "D5"@[1] && "D4"@[1] != "SW"@[1] && "D5"@[1] != "SW"@[1]);
}

} // verus!
