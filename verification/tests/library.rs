use gameboy_core::cartridge::{synthetic_rom_with_header, Cartridge, MapperKind, CGB_FLAG_OFFSET};
use gameboy_core::library::{entry_for, mapper_name, sort_by_title, RomEntry};
use gameboy_core::library::{entry_from_meta, is_hidden_name, is_rom_extension, shorten};
use gameboy_core::states::StateMeta;

fn entry(title: &str, file_name: &str) -> RomEntry {
    RomEntry {
        path: format!("/roms/{file_name}.gb"),
        file_name: String::from(file_name),
        title: String::from(title),
        color: false,
        mapper: String::from("ROM only"),
    }
}

#[test]
fn display_title_falls_back_to_file_name() {
    assert_eq!(entry("TETRIS", "tetris").display_title(), "TETRIS");
    assert_eq!(entry("", "homebrew").display_title(), "homebrew");
}

#[test]
fn mapper_names() {
    assert_eq!(mapper_name(MapperKind::NoMbc), "ROM only");
    assert_eq!(mapper_name(MapperKind::Mbc1), "MBC1");
    assert_eq!(mapper_name(MapperKind::Mbc3), "MBC3");
    assert_eq!(mapper_name(MapperKind::Mbc5), "MBC5");
}

#[test]
fn sort_ignores_case_and_is_stable() {
    let entries = vec![
        entry("zelda", "z"),
        entry("Alpha", "a1"),
        entry("", "beta"),
        entry("ALPHA", "a2"),
    ];
    let sorted = sort_by_title(entries);
    let names: Vec<&str> = sorted.iter().map(|e| e.file_name.as_str()).collect();
    assert_eq!(names, vec!["a1", "a2", "beta", "z"]);
}

#[test]
fn sort_of_empty_library() {
    assert!(sort_by_title(Vec::new()).is_empty());
}

#[test]
fn entry_from_header() {
    let mut rom = synthetic_rom_with_header("POKEMON", 0x13, 0x01, 0x03, &[]);
    rom[CGB_FLAG_OFFSET] = 0x80;
    let cartridge = Cartridge::from_bytes(rom).expect("cartridge");
    let e = entry_for(String::from("/roms/p.gbc"), String::from("p"), cartridge.header());
    assert_eq!(e.title, "POKEMON");
    assert_eq!(e.mapper, "MBC3");
    assert!(e.color);
    assert_eq!(e.display_title(), "POKEMON");
}

#[test]
fn rom_extensions() {
    assert!(is_rom_extension("gb"));
    assert!(is_rom_extension("GBC"));
    assert!(is_rom_extension("gBc"));
    assert!(!is_rom_extension("gba"));
    assert!(!is_rom_extension("g"));
    assert!(!is_rom_extension(""));
    assert!(is_hidden_name(".git"));
    assert!(!is_hidden_name("roms"));
    assert!(!is_hidden_name(""));
}

#[test]
fn entry_from_state() {
    let meta = StateMeta::new(
        String::from("/roms/tetris.gb"),
        String::from("TETRIS"),
        String::from("ROM only"),
        false,
        5,
        Vec::new(),
        0,
        String::from("x_s0"),
        1,
    );
    let e = entry_from_meta(&meta, String::from("tetris"));
    assert_eq!(e.path, "/roms/tetris.gb");
    assert_eq!(e.file_name, "tetris");
    assert_eq!(e.title, "TETRIS");
    assert_eq!(e.mapper, "ROM only");
    assert!(!e.color);
}

#[test]
fn shorten_keeps_tail_behind_ellipsis() {
    assert_eq!(shorten("/home/me/roms", 20), "/home/me/roms");
    assert_eq!(shorten("/home/me/roms", 13), "/home/me/roms");
    assert_eq!(shorten("/home/me/roms", 5), "\u{2026}roms");
    assert_eq!(shorten("abc", 1), "\u{2026}");
}
