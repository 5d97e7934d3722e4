use sunmao_tools::au::{
    normalize_version, package_au, parse_u32_radix, AuArgs, AuPackagingError, ParseIntFault,
};
use sunmao_tools::packager::{AncestorState, BinaryFacts, ExistingOutput, OutputFacts};
use sunmao_tools::request::{PackageError, Target, TargetPlatform};
use sunmao_tools::request::{parse_version, version_to_au_integer};

#[test]
fn accepts_semantic_versions() {
    assert_eq!(normalize_version("1.2.3").unwrap(), "1.2.3");
}

#[test]
fn converts_legacy_packed_versions() {
    assert_eq!(normalize_version("0x00010203").unwrap(), "1.2.3");
    assert_eq!(normalize_version("65536").unwrap(), "1.0.0");
}

#[test]
fn packed_versions_tolerate_padding_separators_and_upper_case_hex() {
    assert_eq!(normalize_version(" 0X0001_0203 ").unwrap(), "1.2.3");
    assert_eq!(normalize_version("66_051").unwrap(), "1.2.3");
    assert_eq!(normalize_version("4294967295").unwrap(), "65535.255.255");
    assert_eq!(normalize_version("+7").unwrap(), "0.0.7");
}

#[test]
fn bad_packed_versions_are_refused_with_the_parse_error() {
    assert_eq!(
        normalize_version("").unwrap_err(),
        "invalid packed AU version '': cannot parse integer from empty string"
    );
    assert_eq!(
        normalize_version("12a").unwrap_err(),
        "invalid packed AU version '12a': invalid digit found in string"
    );
    assert_eq!(
        normalize_version("4294967296").unwrap_err(),
        "invalid packed AU version '4294967296': number too large to fit in target type"
    );
    assert_eq!(
        normalize_version("0x").unwrap_err(),
        "invalid packed AU version '0x': cannot parse integer from empty string"
    );
    assert_eq!(
        normalize_version("-").unwrap_err(),
        "invalid packed AU version '-': invalid digit found in string"
    );
}

#[test]
fn integers_parse_as_the_standard_library_parses_them() {
    for text in ["0", "42", "+42", "4294967295", "4294967296", "", "+", "-", "-1", "1_0", "99999999999x"] {
        assert_eq!(
            parse_u32_radix(text, 10).ok(),
            text.parse::<u32>().ok(),
            "{text}"
        );
    }
    for text in ["ff", "FF", "ffffffff", "100000000", "g", "+a"] {
        assert_eq!(
            parse_u32_radix(text, 16).ok(),
            u32::from_str_radix(text, 16).ok(),
            "{text}"
        );
    }
    assert_eq!(parse_u32_radix("99999999999x", 10), Err(ParseIntFault::PosOverflow));
    assert_eq!(parse_u32_radix("9x9999999999", 10), Err(ParseIntFault::InvalidDigit));
}

fn args() -> AuArgs {
    AuArgs {
        binary: "/src/libgain.dylib".to_string(),
        out: "/out/Gain".to_string(),
        name: "Gain".to_string(),
        bundle_id: "com.sunmao.gain".to_string(),
        component_type: "aufx".to_string(),
        component_subtype: "gain".to_string(),
        component_manufacturer: "Smao".to_string(),
        version: "65536".to_string(),
        factory: "RustAUFactory".to_string(),
        sandbox_safe: false,
        unsafe_mode: false,
        executable: None,
        codesign: false,
        install: None,
    }
}

fn macho_module() -> Vec<u8> {
    let mut bytes = vec![0; 32];
    bytes[..4].copy_from_slice(&[0xcf, 0xfa, 0xed, 0xfe]);
    bytes[4..8].copy_from_slice(&0x0100_000cu32.to_le_bytes());
    bytes[12..16].copy_from_slice(&6u32.to_le_bytes());
    bytes
}

fn run(args: &AuArgs, platform: TargetPlatform) -> Result<sunmao_tools::packager::PackagePlan, AuPackagingError> {
    package_au(
        args,
        &Target::new(platform, "aarch64"),
        &BinaryFacts { exists: true, is_file: true, contents: Some(macho_module()) },
        OutputFacts {
            ancestor: AncestorState::Directory,
            existing: ExistingOutput::Absent,
            binary_canonical: true,
            aliases_binary: false,
        },
    )
}

#[test]
fn the_au_front_end_packages_a_component() {
    let plan = run(&args(), TargetPlatform::Macos).unwrap();
    assert_eq!(plan.output, "/out/Gain.component");
}

#[test]
fn the_au_front_end_refuses_conflicting_flags() {
    let mut both = args();
    both.sandbox_safe = true;
    both.unsafe_mode = true;
    assert!(matches!(
        run(&both, TargetPlatform::Macos),
        Err(AuPackagingError::Usage(m)) if m == "--sandbox-safe and --unsafe are mutually exclusive"
    ));

    let mut install = args();
    install.install = Some("/Library/Audio".to_string());
    assert!(matches!(
        run(&install, TargetPlatform::Macos),
        Err(AuPackagingError::Usage(m)) if m.starts_with("--install is no longer performed")
    ));

    let mut other = args();
    other.executable = Some("Other".to_string());
    assert!(matches!(
        run(&other, TargetPlatform::Macos),
        Err(AuPackagingError::Usage(m)) if m == "--executable 'Other' does not match the unified bundle module name 'Gain'; rename --out or omit --executable"
    ));

    let mut same = args();
    same.executable = Some("Gain".to_string());
    assert!(run(&same, TargetPlatform::Macos).is_ok());

    assert!(matches!(
        run(&args(), TargetPlatform::Linux),
        Err(AuPackagingError::Package(PackageError::AuRequiresMacos))
    ));
}

#[test]
fn hex_packed_versions_round_trip() {
    for (raw, packed) in [("0x00010203", 0x0001_0203u32), ("0XFFFFFF", 0xFF_FFFF), ("0x0", 0), ("0xffffffff", u32::MAX)] {
        let dotted = normalize_version(raw).unwrap();
        let parts = parse_version(&dotted).unwrap();
        assert_eq!(version_to_au_integer(parts).unwrap(), packed, "{raw}");
    }
}

#[test]
fn mixed_case_hex_versions_round_trip() {
    for (raw, packed) in [("0x0001aB03", 0x0001_AB03u32), ("0XfFfF0a0B", 0xFFFF_0A0B)] {
        let parts = parse_version(&normalize_version(raw).unwrap()).unwrap();
        assert_eq!(version_to_au_integer(parts).unwrap(), packed, "{raw}");
    }
}
