use loadstone::port::{Family, LinkerArea, LinkerScriptConstants, Port, Subfamily};

#[test]
fn families_and_subfamilies() {
    assert_eq!(Port::Stm32F412.family(), Family::Stm32);
    assert_eq!(Port::Wgm160P.family(), Family::Efm32);
    assert_eq!(Port::Nrf52840.family(), Family::Nrf);
    assert_eq!(Port::Stm32F412.subfamily(), Subfamily::Stm32f4);
    assert_eq!(Port::Wgm160P.subfamily(), Subfamily::Efm32Gg11);
    assert_eq!(Port::Nrf52840.subfamily(), Subfamily::Nrf52);
}

#[test]
fn linker_constants_per_port() {
    assert_eq!(
        Port::Stm32F412.linker_script_constants(),
        Some(LinkerScriptConstants {
            flash: LinkerArea { origin: 0x0800_0000, size: 896 * 1024 },
            ram: LinkerArea { origin: 0x2000_0000, size: 256 * 1024 },
        })
    );
    assert_eq!(
        Port::Wgm160P.linker_script_constants(),
        Some(LinkerScriptConstants {
            flash: LinkerArea { origin: 0, size: 1024 * 1024 },
            ram: LinkerArea { origin: 0x2000_0000, size: 128 * 1024 },
        })
    );
    assert_eq!(
        Port::Nrf52840.linker_script_constants(),
        Some(LinkerScriptConstants {
            flash: LinkerArea { origin: 0, size: 512 * 1024 },
            ram: LinkerArea { origin: 0x2000_0000, size: 64 * 1024 },
        })
    );
}

#[test]
fn names_and_default() {
    assert_eq!(Port::default(), Port::Stm32F412);
    assert_eq!(Port::Wgm160P.name(), "wgm160p");
    assert_eq!(Port::Nrf52840.name(), "nrf52840");
    assert_eq!(Family::Efm32.name(), "efm32");
    assert_eq!(Subfamily::Efm32Gg11.name(), "gg11");
    assert_eq!(Subfamily::Stm32f4.name(), "f4");
}
