use sunmao_tools::scanner::{
    au_component_id, extract_au_description, extract_plist_string, extract_plist_value,
    find_au_component, find_bundle_module, find_str, fourcc_str, has_extension,
    is_clap_bundle_module, module_candidates, plist_fourcc, scan_au_system,
    clap_module_search, vst3_architecture_directory, vst3_module_search,
    vst3_preferred_module_names, AuComponent, BundleKind, cstr_from_char8, vst3_class_records,
    Vst3ClassInfo,
};
use sunmao_tools::host::PluginFormat;
use sunmao_tools::paths::is_single_path_component;
use sunmao_tools::xml::{xml_escape, xml_unescape};
use sunmao_tools::plist::au_plist;
use sunmao_tools::request::AuMetadata;

#[test]
fn top_level_plugin_extensions_are_case_insensitive() {
    assert!(has_extension("Plugin.CLAP", "clap"));
    assert!(has_extension("Plugin.VST3", "vst3"));
    assert!(has_extension("Plugin.Component", "component"));
    assert!(!has_extension("Plugin.txt", "vst3"));
}

#[test]
fn vst3_architecture_directories_match_packager_layouts() {
    assert_eq!(
        vst3_architecture_directory("windows", "x86_64"),
        Some("x86_64-win")
    );
    assert_eq!(
        vst3_architecture_directory("windows", "aarch64"),
        Some("arm_64-win")
    );
    assert_eq!(
        vst3_architecture_directory("linux", "aarch64"),
        Some("aarch64-linux")
    );
    assert_eq!(
        vst3_architecture_directory("linux", "riscv64"),
        Some("riscv64-linux")
    );
    assert_eq!(
        vst3_architecture_directory("macos", "aarch64"),
        Some("MacOS")
    );
    assert_eq!(vst3_architecture_directory("windows", "mips64"), None);
}

#[test]
fn plist_entity_decoding_happens_once() {
    assert_eq!(xml_unescape("A &amp; B &lt; C"), "A & B < C");
    assert_eq!(xml_unescape("&amp;lt;"), "&lt;");
}

#[test]
fn escaping_then_unescaping_gives_the_text_back() {
    for text in ["Bundle & Name", "<tag attr=\"x\">'q'</tag>", "&amp;", "plain"] {
        assert_eq!(xml_unescape(&xml_escape(text)), text);
    }
    assert_eq!(xml_escape("a<b>&\"'"), "a&lt;b&gt;&amp;&quot;&apos;");
    assert_eq!(xml_unescape("&unknown; &amp"), "&unknown; &amp");
}

#[test]
fn bundle_discovery_unescapes_plist_executable_names() {
    let plist = "<key>CFBundleExecutable</key><string>Bundle &amp; Name</string>";
    assert_eq!(
        extract_plist_string(plist, "CFBundleExecutable"),
        Some("Bundle & Name".to_string())
    );
    assert_eq!(
        extract_plist_value(plist, "CFBundleExecutable"),
        Some("Bundle &amp; Name".to_string())
    );
    assert_eq!(extract_plist_string(plist, "CFBundleName"), None);
    assert_eq!(
        extract_plist_string("<key>K</key>\n  <string>  padded  </string>", "K"),
        Some("padded".to_string())
    );
    assert_eq!(extract_plist_string("<key>K</key><string>open", "K"), None);
}

#[test]
fn plist_fourccs_are_big_endian_and_quote_tolerant() {
    assert_eq!(plist_fourcc("'aufx'"), Some(0x6175_6678));
    assert_eq!(plist_fourcc("aumu"), Some(0x6175_6D75));
    assert_eq!(plist_fourcc("''gain''"), Some(0x6761_696E));
    assert_eq!(plist_fourcc("abc"), None);
    assert_eq!(plist_fourcc("abcde"), None);
}

#[test]
fn au_descriptions_come_from_the_component_entry() {
    let plist = "<key>manufacturer</key>\n<string>Smao</string>\n<key>subtype</key>\n<string>gain</string>\n<key>type</key>\n<string>'aufx'</string>";
    assert_eq!(
        extract_au_description(plist),
        Some((0x6175_6678, 0x6761_696E, 0x536D_616F))
    );
    assert_eq!(extract_au_description("<key>type</key><string>aufx</string>"), None);
}

#[test]
fn au_components_become_plugin_records() {
    assert_eq!(fourcc_str(0x6175_6678), "aufx");
    assert_eq!(fourcc_str(0x61FF_6678), "a\u{FFFD}fx");
    assert_eq!(au_component_id("aufx", "gain", "Smao"), "aufx-gain-Smao");
    let components = vec![
        AuComponent {
            component_type: 0x6175_6678,
            component_subtype: 0x6761_696E,
            manufacturer: 0x536D_616F,
            name: "Gain".to_string(),
        },
        AuComponent {
            component_type: 0x6175_6D75,
            component_subtype: 0x7369_6E65,
            manufacturer: 0x536D_616F,
            name: "Sine".to_string(),
        },
    ];
    let infos = scan_au_system(&components);
    assert_eq!(infos.len(), 2);
    assert_eq!(infos[0].id, "aufx-gain-Smao");
    assert_eq!(infos[0].format, PluginFormat::AU);
    assert!(!infos[0].is_synth);
    assert!(infos[1].is_synth);
    let found = find_au_component(&components, 0x6175_6D75, 0x7369_6E65, 0x536D_616F).unwrap();
    assert_eq!(found.name, "Sine");
    assert!(find_au_component(&components, 0, 0, 0).is_none());
}

#[test]
fn preferred_vst3_module_names_follow_the_platform() {
    assert_eq!(vst3_preferred_module_names("/b/Preferred.vst3", "macos"), vec!["Preferred"]);
    assert_eq!(
        vst3_preferred_module_names("/b/Preferred.vst3", "windows"),
        vec!["Preferred.vst3", "Preferred.dll"]
    );
    assert_eq!(vst3_preferred_module_names("/b/Preferred.vst3", "linux"), vec!["Preferred.so"]);
    assert!(vst3_preferred_module_names("/b/Preferred.vst3", "freebsd").is_empty());
    assert!(vst3_preferred_module_names("/", "linux").is_empty());
}

#[test]
fn bundle_module_choice_prefers_named_modules_and_refuses_ambiguity() {
    let candidates = module_candidates(
        Some("../escape".to_string()),
        &vec!["Preferred.vst3".to_string(), "Preferred.dll".to_string()],
    );
    assert_eq!(candidates, vec!["Preferred.vst3", "Preferred.dll"]);

    let listing = vec!["First.vst3".to_string(), "Second.dll".to_string()];
    assert_eq!(
        find_bundle_module(true, &candidates, &vec![false, false], Some(listing.clone()), BundleKind::Vst3),
        None
    );
    assert_eq!(
        find_bundle_module(true, &candidates, &vec![true, false], Some(listing.clone()), BundleKind::Vst3),
        Some("Preferred.vst3".to_string())
    );
    assert_eq!(
        find_bundle_module(
            true,
            &candidates,
            &vec![false, false],
            Some(vec!["Only.vst3".to_string(), "Info.plist".to_string()]),
            BundleKind::Vst3
        ),
        Some("Only.vst3".to_string())
    );
    assert_eq!(
        find_bundle_module(false, &candidates, &vec![true, true], None, BundleKind::Vst3),
        None
    );
}

#[test]
fn bundle_discovery_accepts_extensionless_plist_executables() {
    let candidates = module_candidates(Some("ActualExecutable".to_string()), &vec!["Bundle".to_string()]);
    assert_eq!(candidates, vec!["ActualExecutable", "Bundle"]);
    for kind in [BundleKind::Vst3, BundleKind::Clap] {
        assert_eq!(
            find_bundle_module(true, &candidates, &vec![true, false], Some(vec![]), kind),
            Some("ActualExecutable".to_string())
        );
    }
    assert!(is_clap_bundle_module("Plugin.CLAP"));
    assert!(is_clap_bundle_module("Plugin"));
    assert!(!is_clap_bundle_module("Info.plist"));
}

#[test]
fn single_path_components_are_plain_names() {
    assert!(is_single_path_component("Plugin"));
    assert!(is_single_path_component("Plugin/"));
    assert!(!is_single_path_component("a/b"));
    assert!(!is_single_path_component("/abs"));
    assert!(!is_single_path_component(".."));
    assert!(!is_single_path_component("."));
    assert!(!is_single_path_component(""));
}

#[test]
fn substrings_are_found_at_their_first_occurrence() {
    assert_eq!(find_str("abcabd", "abd"), Some(3));
    assert_eq!(find_str("abc", ""), Some(0));
    assert_eq!(find_str("ab", "abc"), None);
    assert_eq!(find_str("\u{e9}t\u{e9}", "t"), Some(1));
}

#[test]
fn vst3_discovery_uses_the_requested_target_architecture() {
    let (arm, names) = vst3_module_search("/tmp/Targeted.vst3", "windows", "aarch64").unwrap();
    assert_eq!(arm, "/tmp/Targeted.vst3/Contents/arm_64-win");
    assert_eq!(names, vec!["Targeted.vst3", "Targeted.dll"]);
    let (x64, _) = vst3_module_search("/tmp/Targeted.vst3/", "windows", "x86_64").unwrap();
    assert_eq!(x64, "/tmp/Targeted.vst3/Contents/x86_64-win");
    let (mac, names) = vst3_module_search("Bundle.vst3", "macos", "aarch64").unwrap();
    assert_eq!(mac, "Bundle.vst3/Contents/MacOS");
    assert_eq!(names, vec!["Bundle"]);
    assert!(vst3_module_search("Bundle.vst3", "windows", "mips64").is_none());
}

#[test]
fn clap_bundles_keep_their_module_under_contents_macos() {
    let (dir, names) = clap_module_search("/p/Gain.clap");
    assert_eq!(dir, "/p/Gain.clap/Contents/MacOS");
    assert_eq!(names, vec!["Gain"]);
}

/// Entity decoding by successive replacement, ampersands last.
fn replace_entities(value: &str) -> String {
    value
        .replace("&quot;", "\"")
        .replace("&apos;", "'")
        .replace("&gt;", ">")
        .replace("&lt;", "<")
        .replace("&amp;", "&")
}

#[test]
fn decoding_once_matches_successive_replacement() {
    for text in [
        "&amp;lt;",
        "&&lt;;",
        "&lt&gt;",
        "&quot;&apos;",
        "&amp;amp;",
        "a &amp; b &lt; c &gt; d",
        "&am&amp;p;",
        "\u{e9}&apos;\u{e9}",
        "&;&#38;",
    ] {
        assert_eq!(xml_unescape(text), replace_entities(text), "{text}");
    }
}

/// Reads a key's string value by byte offsets, as a text search does.
fn string_by_bytes(plist: &str, key: &str) -> Option<String> {
    let key_tag = format!("<key>{}</key>", key);
    let pos = plist.find(&key_tag)?;
    let after = &plist[pos + key_tag.len()..];
    let string_start = after.find("<string>")?;
    let after = &after[string_start + 8..];
    let end = after.find("</string>")?;
    Some(replace_entities(after[..end].trim()))
}

#[test]
fn plist_values_match_a_byte_offset_search() {
    let plist = "<key>A</key>\u{e9}<string> \u{e9} &amp; x </string><key>B</key><string>b</string><key>A</key><string>second</string>";
    for key in ["A", "B", "C", "", "key"] {
        assert_eq!(extract_plist_string(plist, key), string_by_bytes(plist, key), "{key}");
    }
}

#[test]
fn au_registration_written_by_the_packager_reads_back() {
    let au = AuMetadata {
        component_type: "aufx".to_string(),
        component_subtype: "gain".to_string(),
        manufacturer: "Smao".to_string(),
        factory: "SunmaoGainFactory".to_string(),
        sandbox_safe: true,
    };
    let plist = au_plist("Gain & Co", "com.example.gain", "Gain <Pro>", "1.2.3", [1, 2, 3], &au)
        .unwrap();
    assert_eq!(extract_plist_value(&plist, "type").as_deref(), Some("aufx"));
    assert_eq!(extract_plist_value(&plist, "subtype").as_deref(), Some("gain"));
    assert_eq!(extract_plist_value(&plist, "manufacturer").as_deref(), Some("Smao"));
    assert_eq!(
        extract_au_description(&plist),
        Some((0x6175_6678, 0x6761_696E, 0x536D_616F))
    );
    assert_eq!(extract_plist_string(&plist, "CFBundleExecutable").as_deref(), Some("Gain & Co"));
}

#[test]
fn vst3_discovery_rejects_ambiguous_fallbacks_but_prefers_bundle_stem() {
    let (dir, preferred) =
        vst3_module_search("/tmp/t/Preferred.vst3", "windows", "x86_64").unwrap();
    assert_eq!(dir, "/tmp/t/Preferred.vst3/Contents/x86_64-win");
    let candidates = module_candidates(None, &preferred);
    let listing = vec!["First.vst3".to_string(), "Second.dll".to_string()];
    assert_eq!(
        find_bundle_module(true, &candidates, &vec![false, false], Some(listing.clone()), BundleKind::Vst3),
        None
    );
    let mut with_preferred = listing;
    with_preferred.push("Preferred.vst3".to_string());
    assert_eq!(
        find_bundle_module(true, &candidates, &vec![true, false], Some(with_preferred), BundleKind::Vst3),
        Some("Preferred.vst3".to_string())
    );
}

fn c_buffer(text: &str, len: usize) -> Vec<i8> {
    let mut buf = vec![0i8; len];
    for (i, b) in text.bytes().enumerate() {
        buf[i] = b as i8;
    }
    buf
}

#[test]
fn c_char_buffers_end_at_the_first_nul() {
    assert_eq!(cstr_from_char8(&c_buffer("Audio Module Class", 32)), "Audio Module Class");
    assert_eq!(cstr_from_char8(&[b'a' as i8, b'b' as i8]), "ab");
    assert_eq!(cstr_from_char8(&[b'a' as i8, 0, b'b' as i8]), "a");
    assert_eq!(cstr_from_char8(&[]), "");
    assert_eq!(cstr_from_char8(&[b'x' as i8, 0xFFu8 as i8, 0]), "x\u{FFFD}");
}

#[test]
fn vst3_factories_list_their_audio_processor_classes() {
    let mut cid = [0i8; 16];
    cid[0] = -1;
    cid[15] = 42;
    let classes = vec![
        Vst3ClassInfo {
            cid: [1; 16],
            category: c_buffer("Component Controller Class", 32),
            name: c_buffer("Gain Controller", 64),
        },
        Vst3ClassInfo {
            cid,
            category: c_buffer("Audio Module Class", 32),
            name: c_buffer("Gain", 64),
        },
    ];
    let infos = vst3_class_records(&c_buffer("SunMao", 64), &classes, "/p/Gain.vst3");
    assert_eq!(infos.len(), 1);
    let info = &infos[0];
    assert_eq!(info.name, "Gain");
    assert_eq!(info.vendor, "SunMao");
    assert_eq!(info.version, "");
    assert_eq!(info.id, format!("{:?}", cid));
    assert_eq!(info.id, "[-1, 0, 0, 0, 0, 0, 0, 0, 0, 0, 0, 0, 0, 0, 0, 42]");
    assert_eq!(info.path, "/p/Gain.vst3");
    assert_eq!(info.format, PluginFormat::VST3);
    assert_eq!(info.class_index, 1);
    assert!(!info.is_synth);
    assert!(vst3_class_records(&[], &vec![], "/p").is_empty());
}
