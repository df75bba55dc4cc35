use soulless::utils::{
    hex_nibble, launch_argv, parse_uri_list, percent_decode_bytes, percent_decode_uri,
    shell_escape, strip_desktop_placeholders, truncate_label,
};

#[test]
fn placeholders_are_stripped_and_trimmed() {
    assert_eq!(strip_desktop_placeholders("firefox %u"), "firefox");
    assert_eq!(strip_desktop_placeholders("app %F --flag %%"), "app  --flag %%");
    assert_eq!(strip_desktop_placeholders("  run %"), "run %");
}

#[test]
fn percent_decoding() {
    assert_eq!(percent_decode_uri("%C3%A9t%C3%A9"), "été");
    assert_eq!(percent_decode_uri("a%20b"), "a b");
    assert_eq!(percent_decode_uri("100%"), "100%");
    assert_eq!(percent_decode_uri("%zz"), "%zz");
    assert_eq!(percent_decode_uri("plain"), "plain");
    assert_eq!(percent_decode_bytes(b"%41%4a"), b"AJ".to_vec());
    assert_eq!(hex_nibble(b'f'), Some(15));
    assert_eq!(hex_nibble(b'G'), None);
}

#[test]
fn labels_and_escaping() {
    assert_eq!(truncate_label("Firefox", 10), "Firefox");
    assert_eq!(truncate_label("LibreOffice Writer", 8), "LibreOf…");
    assert_eq!(truncate_label("abc", 0), "");
    assert_eq!(truncate_label("abc", 1), "…");
    assert_eq!(truncate_label("", 0), "");
    assert_eq!(shell_escape("it's"), "'it'\\''s'");
    assert_eq!(shell_escape("plain"), "'plain'");
}

#[test]
fn uri_list_keeps_file_entries() {
    let data = b"file:///home/u/My%20File.txt\r\nhttp://x\n  file:///tmp/a  \n";
    assert_eq!(parse_uri_list(data), vec!["/home/u/My File.txt".to_string(), "/tmp/a".to_string()]);
}

#[test]
fn launch_argv_goes_through_the_host_when_sandboxed() {
    assert_eq!(launch_argv("firefox %u", false), vec!["sh", "-c", "firefox"]);
    assert_eq!(launch_argv("gimp %f", true), vec!["flatpak-spawn", "--host", "sh", "-c", "gimp"]);
}
