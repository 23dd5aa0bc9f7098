use flagfetch::os_release::{parse_os_release_line, OsRelease};
use flagfetch::table::Fields;

fn entry(line: &str) -> Option<(String, String)> {
    let chars: Vec<char> = line.chars().collect();
    parse_os_release_line(&chars)
}

fn pair(key: &str, value: &str) -> Option<(String, String)> {
    Some((key.to_string(), value.to_string()))
}

#[test]
fn round_trip_of_a_well_formed_file() {
    let content = "NAME=\"Arch Linux\"\nPRETTY_NAME=\"Arch Linux\"\nID=arch\nBUILD_ID=rolling\nHOME_URL=\"https://archlinux.org/\"\n";
    let os = OsRelease::parse(content);
    assert_eq!(os.get("NAME"), Some("Arch Linux"));
    assert_eq!(os.get("PRETTY_NAME"), Some("Arch Linux"));
    assert_eq!(os.get("ID"), Some("arch"));
    assert_eq!(os.get("BUILD_ID"), Some("rolling"));
    assert_eq!(os.get("HOME_URL"), Some("https://archlinux.org/"));
    assert_eq!(os.get("VERSION"), None);
}

#[test]
fn a_value_without_quotes_is_taken_as_it_is() {
    let os = OsRelease::parse("FOO=bar");
    assert_eq!(os.get("FOO"), Some("bar"));
}

#[test]
fn a_key_defined_twice_keeps_the_last_value() {
    let os = OsRelease::parse("ID=first\nNAME=x\nID=\"second\"\n");
    assert_eq!(os.get("ID"), Some("second"));
    assert_eq!(os.get("NAME"), Some("x"));
}

#[test]
fn comments_and_empty_lines_define_nothing() {
    let os = OsRelease::parse("# a comment\n\n#ID=hidden\nID=nixos\n\n");
    assert_eq!(os.get("ID"), Some("nixos"));
    assert_eq!(os.get("#ID"), None);
    assert_eq!(os.get("# a comment"), None);
    assert_eq!(os.get(""), None);
}

#[test]
fn lines_without_an_equals_sign_are_passed_over() {
    let os = OsRelease::parse("garbage\nID=arch\nmore garbage\n");
    assert_eq!(os.get("ID"), Some("arch"));
    assert_eq!(os.get("garbage"), None);
}

#[test]
fn the_key_is_trimmed_and_the_value_is_not() {
    assert_eq!(entry("  ID\t= arch "), pair("ID", " arch "));
    assert_eq!(entry(" # not a comment=1"), pair("# not a comment", "1"));
}

#[test]
fn the_line_is_cut_at_the_first_equals_sign() {
    assert_eq!(entry("A=b=c"), pair("A", "b=c"));
    assert_eq!(entry("A="), pair("A", ""));
    assert_eq!(entry("=v"), pair("", "v"));
    assert_eq!(entry("="), pair("", ""));
}

#[test]
fn only_one_pair_of_quotes_is_taken_off() {
    assert_eq!(entry("A=\"v\""), pair("A", "v"));
    assert_eq!(entry("A=\"\""), pair("A", ""));
    assert_eq!(entry("A=\"\"v\"\""), pair("A", "\"v\""));
    assert_eq!(entry("A=\"v"), pair("A", "\"v"));
    assert_eq!(entry("A=v\""), pair("A", "v\""));
    assert_eq!(entry("A=\""), pair("A", "\""));
    assert_eq!(entry("A='v'"), pair("A", "'v'"));
}

#[test]
fn lines_that_define_nothing() {
    assert_eq!(entry(""), None);
    assert_eq!(entry("#"), None);
    assert_eq!(entry("#A=b"), None);
    assert_eq!(entry("no equals sign"), None);
}

#[test]
fn the_named_getters_read_their_keys() {
    let os = OsRelease::parse("NAME=NixOS\nID=nixos\nPRETTY_NAME=\"NixOS 24.05 (Uakari)\"\n");
    assert_eq!(os.name(), Some("NixOS"));
    assert_eq!(os.id(), Some("nixos"));
    assert_eq!(os.pretty_name(), Some("NixOS 24.05 (Uakari)"));
    let bare = OsRelease::parse("VERSION=1\n");
    assert_eq!(bare.name(), None);
    assert_eq!(bare.id(), None);
    assert_eq!(bare.pretty_name(), None);
}

#[test]
fn an_empty_description_has_no_keys() {
    let os = OsRelease::empty();
    assert_eq!(os.get("ID"), None);
    assert_eq!(os.pretty_name(), None);
    let parsed = OsRelease::parse("");
    assert_eq!(parsed.get("ID"), None);
}

#[test]
fn windows_line_endings_do_not_end_up_in_values() {
    let os = OsRelease::parse("ID=arch\r\nNAME=\"Arch Linux\"\r\n");
    assert_eq!(os.get("ID"), Some("arch"));
    assert_eq!(os.get("NAME"), Some("Arch Linux"));
}

#[test]
fn fields_keep_the_last_value_of_a_key() {
    let mut fields = Fields::new();
    assert_eq!(fields.get("a"), None);
    fields.insert("a".to_string(), "1".to_string());
    fields.insert("b".to_string(), "2".to_string());
    assert_eq!(fields.get("a"), Some("1"));
    fields.insert("a".to_string(), "3".to_string());
    assert_eq!(fields.get("a"), Some("3"));
    assert_eq!(fields.get("b"), Some("2"));
    assert_eq!(fields.get("c"), None);
}
