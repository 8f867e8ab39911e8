//! Hardware targets and the memory layout handed to their linker scripts.
use vstd::prelude::*;

verus! {

/// Number of bytes in one kibibyte.
pub const KB: usize = 1024;

/// Top level description of the hardware target. Typically a chip subfamily, but it
/// may be more or less concrete depending on the available drivers.
#[derive(Copy, Clone, Debug, PartialEq, Eq, Structural)]
pub enum Port {
    Stm32F412,
    Wgm160P,
    Nrf52840,
}

/// Supported hardware families.
#[derive(Copy, Clone, Debug, PartialEq, Eq, Structural)]
pub enum Family {
    Stm32,
    Efm32,
    Nrf,
}

/// Supported hardware subfamilies.
#[derive(Copy, Clone, Debug, PartialEq, Eq, Structural)]
pub enum Subfamily {
    Stm32f4,
    Efm32Gg11,
    Nrf52,
}

/// A section of memory as defined in the linker script.
#[derive(Copy, Clone, Debug, PartialEq, Eq, Structural)]
pub struct LinkerArea {
    pub origin: u32,
    pub size: usize,
}

/// Constants to be propagated to the linker script for this port.
#[derive(Copy, Clone, Debug, PartialEq, Eq, Structural)]
pub struct LinkerScriptConstants {
    /// Available flash memory as defined in the linker script.
    pub flash: LinkerArea,
    /// Available ram memory as defined in the linker script.
    pub ram: LinkerArea,
}

/// The family each port belongs to.
pub open spec fn family_of(p: Port) -> Family {
    match p {
        Port::Stm32F412 => Family::Stm32,
        Port::Wgm160P => Family::Efm32,
        Port::Nrf52840 => Family::Nrf,
    }
}

/// The subfamily each port belongs to.
pub open spec fn subfamily_of(p: Port) -> Subfamily {
    match p {
        Port::Stm32F412 => Subfamily::Stm32f4,
        Port::Wgm160P => Subfamily::Efm32Gg11,
        Port::Nrf52840 => Subfamily::Nrf52,
    }
}

/// Flash and ram layout of each port: (flash origin, flash KiB, ram origin, ram KiB).
pub open spec fn layout_of(p: Port) -> (u32, nat, u32, nat) {
    match p {
        Port::Stm32F412 => (0x0800_0000u32, 896nat, 0x2000_0000u32, 256nat),
        Port::Wgm160P => (0u32, 1024nat, 0x2000_0000u32, 128nat),
        Port::Nrf52840 => (0u32, 512nat, 0x2000_0000u32, 64nat),
    }
}

/// Whether `c` describes the layout of port `p`, sizes counted in bytes.
pub open spec fn describes(c: LinkerScriptConstants, p: Port) -> bool {
    let (fo, fk, ro, rk) = layout_of(p);
    &&& c.flash.origin == fo
    &&& c.flash.size as nat == fk * 1024
    &&& c.ram.origin == ro
    &&& c.ram.size as nat == rk * 1024
}

/// Lower-case name of a port.
pub open spec fn port_name(p: Port) -> Seq<char> {
    match p {
        Port::Stm32F412 => "stm32f412"@,
        Port::Wgm160P => "wgm160p"@,
        Port::Nrf52840 => "nrf52840"@,
    }
}

/// Lower-case name of a family.
pub open spec fn family_name(f: Family) -> Seq<char> {
    match f {
        Family::Stm32 => "stm32"@,
        Family::Efm32 => "efm32"@,
        Family::Nrf => "nrf"@,
    }
}

/// Lower-case name of a subfamily.
pub open spec fn subfamily_name(s: Subfamily) -> Seq<char> {
    match s {
        Subfamily::Stm32f4 => "f4"@,
        Subfamily::Efm32Gg11 => "gg11"@,
        Subfamily::Nrf52 => "nrf52"@,
    }
}

impl Default for Port {
    /// Arbitrary default port, used to seed configuration defaults.
    fn default() -> (r: Self)
        ensures
            r == Port::Stm32F412,
    {
        Port::Stm32F412
    }
}

impl Port {
    /// Hardware family of this port.
    pub fn family(&self) -> (r: Family)
        ensures
            r == family_of(*self),
    {
        match self {
            Port::Stm32F412 => Family::Stm32,
            Port::Wgm160P => Family::Efm32,
            Port::Nrf52840 => Family::Nrf,
        }
    }

    /// Hardware subfamily of this port.
    pub fn subfamily(&self) -> (r: Subfamily)
        ensures
            r == subfamily_of(*self),
    {
        match self {
            Port::Stm32F412 => Subfamily::Stm32f4,
            Port::Wgm160P => Subfamily::Efm32Gg11,
            Port::Nrf52840 => Subfamily::Nrf52,
        }
    }

    /// Constants to be propagated to the linker script for this port. This mainly
    /// defines the sections of ram and flash memory.
    pub fn linker_script_constants(&self) -> (r: Option<LinkerScriptConstants>)
        ensures
            r is Some,
            describes(r->0, *self),
    {
        match self {
            Port::Stm32F412 => Some(LinkerScriptConstants {
                flash: LinkerArea { origin: 0x0800_0000, size: 896 * KB },
                ram: LinkerArea { origin: 0x2000_0000, size: 256 * KB },
            }),
            Port::Wgm160P => Some(LinkerScriptConstants {
                flash: LinkerArea { origin: 0x0000_0000, size: 1024 * KB },
                ram: LinkerArea { origin: 0x2000_0000, size: 128 * KB },
            }),
            Port::Nrf52840 => Some(LinkerScriptConstants {
                flash: LinkerArea { origin: 0x0000_0000, size: 512 * KB },
                ram: LinkerArea { origin: 0x2000_0000, size: 64 * KB },
            }),
        }
    }

    /// Lower-case name of this port, as shown to users.
    pub fn name(&self) -> (r: &'static str)
        ensures
            r@ == port_name(*self),
    {
        match self {
            Port::Stm32F412 => "stm32f412",
            Port::Wgm160P => "wgm160p",
            Port::Nrf52840 => "nrf52840",
        }
    }
}

impl Family {
    /// Lower-case name of this family, as shown to users.
    pub fn name(&self) -> (r: &'static str)
        ensures
            r@ == family_name(*self),
    {
        match self {
            Family::Stm32 => "stm32",
            Family::Efm32 => "efm32",
            Family::Nrf => "nrf",
        }
    }
}

impl Subfamily {
    /// Lower-case name of this subfamily, as shown to users.
    pub fn name(&self) -> (r: &'static str)
        ensures
            r@ == subfamily_name(*self),
    {
        match self {
            Subfamily::Stm32f4 => "f4",
            Subfamily::Efm32Gg11 => "gg11",
            Subfamily::Nrf52 => "nrf52",
        }
    }
}

} // verus!
