use sunmao_tools::cli::{clap_packager_request, packager_request, usage, PackagerArgs};
use sunmao_tools::binary::native_module;
use sunmao_tools::packager::{
    package, AncestorState, BinaryFacts, BuildStep, ExistingOutput, OutputFacts, OutputKind,
};
use sunmao_tools::request::{PackageError, PackageFormat, Target, TargetPlatform};

fn args(format: PackageFormat) -> PackagerArgs {
    PackagerArgs {
        format,
        binary: "/src/libgain.so".to_string(),
        out: "/out/Gain".to_string(),
        name: "Gain".to_string(),
        bundle_id: "com.sunmao.gain".to_string(),
        version: "1.0.0".to_string(),
        codesign: false,
        au_type: None,
        au_subtype: None,
        au_manufacturer: None,
        au_factory: "RustAUFactory".to_string(),
        au_sandbox_safe: true,
    }
}

#[test]
fn au_requests_need_their_codes() {
    assert_eq!(
        packager_request(&args(PackageFormat::Au)).unwrap_err(),
        "--au-type is required for AU format"
    );
    let mut au = args(PackageFormat::Au);
    au.au_type = Some("aufx".to_string());
    au.au_subtype = Some("gain".to_string());
    assert_eq!(
        packager_request(&au).unwrap_err(),
        "--au-manufacturer is required for AU format"
    );
    au.au_manufacturer = Some("Smao".to_string());
    let request = packager_request(&au).unwrap();
    assert_eq!(request.au.unwrap().manufacturer, "Smao");
    let vst3 = packager_request(&args(PackageFormat::Vst3)).unwrap();
    assert!(vst3.au.is_none());
    assert_eq!(vst3.out, "/out/Gain");
}

#[test]
fn legacy_command_uses_the_unified_clap_layout() {
    for (platform, arch) in [
        (TargetPlatform::Macos, "aarch64"),
        (TargetPlatform::Linux, "x86_64"),
        (TargetPlatform::Windows, "x86_64"),
    ] {
        let (binary, bytes) = native_module(platform, arch, "/tmp/compat/source").unwrap();
        let argv: Vec<String> = [
            "clap_packager",
            binary.as_str(),
            "/tmp/compat/Compat CLAP",
            "com.sunmao.compat-clap",
            "Compat CLAP",
            "1.2.3",
        ]
        .iter()
        .map(|s| s.to_string())
        .collect();
        let request = clap_packager_request(&argv).unwrap();
        assert_eq!(request.format, PackageFormat::Clap);
        assert_eq!(request.binary, binary);
        assert_eq!(request.bundle_id, "com.sunmao.compat-clap");
        assert_eq!(request.name, "Compat CLAP");
        assert_eq!(request.version, "1.2.3");
        let facts = BinaryFacts { exists: true, is_file: true, contents: Some(bytes) };
        let output = OutputFacts {
            ancestor: AncestorState::Directory,
            existing: ExistingOutput::Absent,
            binary_canonical: true,
            aliases_binary: false,
        };
        let plan = package(&request, &Target::new(platform, arch), &facts, output).unwrap();
        assert_eq!(plan.output, "/tmp/compat/Compat CLAP.clap");
        let copied_to = match platform {
            TargetPlatform::Macos => "Contents/MacOS/Compat CLAP",
            _ => "",
        };
        assert!(plan
            .steps
            .iter()
            .any(|step| matches!(step, BuildStep::CopyBinary(p) if p == copied_to)));
        assert_eq!(
            plan.kind,
            if platform == TargetPlatform::Macos { OutputKind::Bundle } else { OutputKind::File }
        );
    }
    let argv: Vec<String> = ["clap_packager", "/src/gain.so", "/out/Compat CLAP", "com.sunmao.compat-clap", "Compat CLAP"]
        .iter()
        .map(|s| s.to_string())
        .collect();
    assert!(clap_packager_request(&argv).is_none());
    assert!(usage().starts_with("Usage: clap_packager"));
}

fn vst3_args(binary: String, out: &str, name: &str, bundle_id: &str) -> PackagerArgs {
    let mut a = args(PackageFormat::Vst3);
    a.binary = binary;
    a.out = out.to_string();
    a.name = name.to_string();
    a.bundle_id = bundle_id.to_string();
    a.version = "1.0.0".to_string();
    a
}

fn module_facts(bytes: Vec<u8>) -> BinaryFacts {
    BinaryFacts { exists: true, is_file: true, contents: Some(bytes) }
}

fn no_output() -> OutputFacts {
    OutputFacts {
        ancestor: AncestorState::Directory,
        existing: ExistingOutput::Absent,
        binary_canonical: true,
        aliases_binary: false,
    }
}

#[test]
fn cli_packages_a_native_vst3_bundle() {
    for (platform, arch, module) in [
        (TargetPlatform::Macos, "aarch64", "Contents/MacOS/CLI Product"),
        (TargetPlatform::Linux, "x86_64", "Contents/x86_64-linux/CLI Product.so"),
        (TargetPlatform::Windows, "x86_64", "Contents/x86_64-win/CLI Product.vst3"),
    ] {
        let (binary, bytes) = native_module(platform, arch, "/tmp/cli/source").unwrap();
        let request = packager_request(&vst3_args(
            binary,
            "/tmp/cli/CLI Product",
            "CLI Product",
            "com.sunmao.cli-product",
        ))
        .unwrap();
        let plan =
            package(&request, &Target::new(platform, arch), &module_facts(bytes), no_output())
                .unwrap();
        assert_eq!(plan.output, "/tmp/cli/CLI Product.vst3");
        assert!(plan
            .steps
            .iter()
            .any(|step| matches!(step, BuildStep::CopyBinary(p) if p == module)));
    }
}

#[test]
fn cli_validation_does_not_replace_an_existing_bundle() {
    let (binary, bytes) = native_module(TargetPlatform::Linux, "x86_64", "/tmp/cli/source").unwrap();
    let request = packager_request(&vst3_args(binary, "/tmp/cli/Existing", "Existing", "invalid"))
        .unwrap();
    let existing = OutputFacts { existing: ExistingOutput::Directory, ..no_output() };
    let refused = package(
        &request,
        &Target::new(TargetPlatform::Linux, "x86_64"),
        &module_facts(bytes),
        existing,
    );
    assert!(matches!(refused, Err(PackageError::BundleIdTooFewComponents)));
}
