use soulless::sources::{
    extract_desktop_field, extract_field, extract_mhz, format_name, parse_dmidecode_speed,
    parse_kb, should_skip_entry,
};

#[test]
fn skip_services_and_settings_panels() {
    assert!(should_skip_entry("/usr/lib/gnome-Daemon --x", "Thing"));
    assert!(should_skip_entry("xdg-desktop-portal", "Portal"));
    assert!(should_skip_entry("app", "Display Settings Panel"));
    assert!(!should_skip_entry("firefox %u", "Firefox"));
}

#[test]
fn desktop_fields() {
    let c = "[Desktop Entry]\nName=  IntelliJ IDEA \nExec=/opt/idea.sh %f\nIcon=idea\n";
    assert_eq!(extract_desktop_field(c, "Name"), Some("IntelliJ IDEA".to_string()));
    assert_eq!(extract_desktop_field(c, "Exec"), Some("/opt/idea.sh %f".to_string()));
    assert_eq!(extract_desktop_field(c, "Comment"), None);
    assert_eq!(format_name("PyCharm"), "PyCharm");
    assert_eq!(format_name("idea"), "IntelliJ IDEA");
    assert_eq!(format_name("RUSTROVER"), "RustRover");
    assert_eq!(format_name("custom"), "custom");
}

#[test]
fn steam_manifest_fields() {
    let c = "\"AppState\"\n{\n\t\"appid\"\t\t\"620\"\n\t\"name\"\t\t\"Portal 2\"\n\t\"namex\"\t\"x\"\n}\n";
    assert_eq!(extract_field(c, "appid"), Some("620".to_string()));
    assert_eq!(extract_field(c, "name"), Some("Portal 2".to_string()));
    assert_eq!(extract_field(c, "missing"), None);
    assert_eq!(extract_field("\"name\" unquoted\n\"name\" \"second\"", "name"), Some("second".to_string()));
}

#[test]
fn meminfo_and_dmidecode() {
    assert_eq!(parse_kb("MemTotal:       16318480 kB"), Some(16318480));
    assert_eq!(parse_kb("MemTotal:"), None);
    assert_eq!(extract_mhz("Speed: 3200 MT/s"), Some(3200));
    assert_eq!(extract_mhz("Speed: Unknown"), None);
    assert_eq!(extract_mhz("Speed: 0 MT/s"), None);
    assert_eq!(extract_mhz("Speed: 20000 MT/s"), None);
    assert_eq!(extract_mhz("no colon"), None);
    let out = b"Memory Device\n\tSpeed: 3200 MT/s\n\tConfigured Memory Speed: 2933 MT/s\n\tSpeed: Unknown\nMemory Device\n\tSpeed: 3600 MT/s\n\tConfigured Memory Speed: 3000 MT/s\n";
    assert_eq!(parse_dmidecode_speed(out), Some(3000));
    assert_eq!(parse_dmidecode_speed(b"\tSpeed: 2400 MT/s\n\tSpeed: 2666 MT/s\n"), Some(2666));
    assert_eq!(parse_dmidecode_speed(b"nothing"), None);
}
