use sl_map_tools::text::{display_name_from_file_name, pick_font_name, NameRecord};

#[test]
fn display_name_drops_extension_and_replaces_separators() {
    assert_eq!(display_name_from_file_name("DejaVuSans.ttf"), "DejaVuSans");
    assert_eq!(display_name_from_file_name("noto-sans-mono.ttf"), "noto sans mono");
    assert_eq!(display_name_from_file_name("source_code_pro.ttf"), "source code pro");
}

#[test]
fn display_name_keeps_names_without_extension_and_cuts_at_the_last_dot() {
    assert_eq!(display_name_from_file_name("plain"), "plain");
    assert_eq!(display_name_from_file_name("my.font-v2.otf"), "my.font v2");
    assert_eq!(display_name_from_file_name(".hidden"), "");
}

#[test]
fn embedded_name_rejects_garbage() {
    assert_eq!(sl_map_tools::text::embedded_font_name(b"not a font"), None);
}

#[test]
fn pick_font_name_prefers_full_name_then_families() {
    let rec = |name_id: u16, is_unicode: bool, text: Option<&str>| {
        Some(NameRecord { name_id, is_unicode, text: text.map(str::to_owned) })
    };
    let records = vec![
        rec(1, true, Some("Family")),
        None,
        rec(4, false, Some("Not unicode")),
        rec(4, true, Some("   ")),
        rec(16, true, Some(" Typo Family ")),
        rec(4, true, None),
    ];
    assert_eq!(pick_font_name(&records), Some("Typo Family".to_owned()));
    let records = vec![rec(1, true, Some("Family")), rec(4, true, Some(" Full Name "))];
    assert_eq!(pick_font_name(&records), Some("Full Name".to_owned()));
    assert_eq!(pick_font_name(&vec![None, rec(2, true, Some("Style"))]), None);
}
