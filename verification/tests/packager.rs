use sunmao_tools::messages::describe;
use sunmao_tools::scanner::vst3_module_search;
use sunmao_tools::binary::{native_module, validate_binary_header, BinaryError, BinaryKind};
use sunmao_tools::packager::{
    binary_kind, output_artifact, output_kind, package, package_for_target, validate_binary,
    validate_output_path, vst3_architecture_directory, AncestorState, BinaryFacts, BuildStep,
    ExistingOutput, OutputFacts, OutputKind, PackagePlan,
};
use sunmao_tools::request::{
    parse_version, version_to_au_integer, AuMetadata, ModuleExtension, PackageError,
    PackageFormat, PackageRequest, Target, TargetPlatform, TextField,
};

fn request(format: PackageFormat, binary: &str, out: &str) -> PackageRequest {
    PackageRequest {
        format,
        binary: binary.to_string(),
        out: out.to_string(),
        name: "Test & Plugin".to_string(),
        bundle_id: "com.sunmao.test-plugin".to_string(),
        version: "1.2.3".to_string(),
        codesign: false,
        au: None,
    }
}

fn elf(class: u8, machine: u16, encoding: u8, file_type: u16) -> Vec<u8> {
    let header_len = if class == 1 { 52 } else { 64 };
    let mut bytes = vec![0; header_len];
    bytes[..4].copy_from_slice(b"\x7fELF");
    bytes[4] = class;
    bytes[5] = encoding;
    if encoding == 2 {
        bytes[16..18].copy_from_slice(&file_type.to_be_bytes());
        bytes[18..20].copy_from_slice(&machine.to_be_bytes());
    } else {
        bytes[16..18].copy_from_slice(&file_type.to_le_bytes());
        bytes[18..20].copy_from_slice(&machine.to_le_bytes());
    }
    bytes
}

fn elf_pie(machine: u16) -> Vec<u8> {
    let mut bytes = vec![0; 64 + 56];
    bytes[..4].copy_from_slice(b"\x7fELF");
    bytes[4] = 2;
    bytes[5] = 1;
    bytes[16..18].copy_from_slice(&3u16.to_le_bytes());
    bytes[18..20].copy_from_slice(&machine.to_le_bytes());
    bytes[32..40].copy_from_slice(&64u64.to_le_bytes());
    bytes[54..56].copy_from_slice(&56u16.to_le_bytes());
    bytes[56..58].copy_from_slice(&1u16.to_le_bytes());
    bytes[64..68].copy_from_slice(&3u32.to_le_bytes());
    bytes
}

fn pe(machine: u16, characteristics: u16) -> Vec<u8> {
    let mut bytes = vec![0; 128];
    bytes[..2].copy_from_slice(b"MZ");
    bytes[60..64].copy_from_slice(&64u32.to_le_bytes());
    bytes[64..68].copy_from_slice(b"PE\0\0");
    bytes[68..70].copy_from_slice(&machine.to_le_bytes());
    bytes[86..88].copy_from_slice(&characteristics.to_le_bytes());
    bytes
}

fn macho(cpu_type: u32, file_type: u32) -> Vec<u8> {
    let mut bytes = vec![0; 32];
    bytes[..4].copy_from_slice(&[0xcf, 0xfa, 0xed, 0xfe]);
    bytes[4..8].copy_from_slice(&cpu_type.to_le_bytes());
    bytes[12..16].copy_from_slice(&file_type.to_le_bytes());
    bytes
}

fn readable(bytes: Vec<u8>) -> BinaryFacts {
    BinaryFacts { exists: true, is_file: true, contents: Some(bytes) }
}

fn fresh_output() -> OutputFacts {
    OutputFacts {
        ancestor: AncestorState::Directory,
        existing: ExistingOutput::Absent,
        binary_canonical: true,
        aliases_binary: false,
    }
}

fn plan(
    req: &PackageRequest,
    platform: TargetPlatform,
    arch: &str,
    bytes: Vec<u8>,
) -> Result<PackagePlan, PackageError> {
    package_for_target(
        req,
        &Target::new(platform, arch),
        platform,
        &readable(bytes),
        fresh_output(),
    )
}

/// The explanation of a refused plan, as the commands print it.
fn why(result: Result<PackagePlan, PackageError>, req: &PackageRequest, platform: TargetPlatform, arch: &str) -> String {
    let error = result.err().expect("refused");
    describe(&error, &req.binary, &Target::new(platform, arch), &req.out)
}

fn step_paths(plan: &PackagePlan) -> Vec<String> {
    plan.steps
        .iter()
        .map(|step| match step {
            BuildStep::CreateDir(p) => format!("dir {p}"),
            BuildStep::CopyBinary(p) => format!("copy {p}"),
            BuildStep::WriteFile(p, _) => format!("write {p}"),
        })
        .collect()
}

fn written(plan: &PackagePlan, path: &str) -> String {
    plan.steps
        .iter()
        .find_map(|step| match step {
            BuildStep::WriteFile(p, text) if p == path => Some(text.clone()),
            _ => None,
        })
        .expect("file is written")
}

#[test]
fn vst3_plans_list_their_steps_in_order() {
    let linux = plan(
        &request(PackageFormat::Vst3, "/src/libgain.so", "/out/Plugin"),
        TargetPlatform::Linux,
        "x86_64",
        elf(2, 62, 1, 3),
    )
    .unwrap();
    assert_eq!(linux.output, "/out/Plugin.vst3");
    assert_eq!(linux.kind, OutputKind::Bundle);
    assert_eq!(
        step_paths(&linux),
        vec![
            "dir Contents/x86_64-linux".to_string(),
            "copy Contents/x86_64-linux/Plugin.so".to_string()
        ]
    );

    let windows = plan(
        &request(PackageFormat::Vst3, "C:/src/gain.DLL", "C:/out/Plugin"),
        TargetPlatform::Windows,
        "aarch64",
        pe(0xaa64, 0x2000),
    )
    .unwrap();
    assert_eq!(windows.output, "C:/out/Plugin.vst3");
    assert_eq!(
        step_paths(&windows),
        vec![
            "dir Contents/arm_64-win".to_string(),
            "copy Contents/arm_64-win/Plugin.vst3".to_string()
        ]
    );

    let mac = plan(
        &request(PackageFormat::Vst3, "/src/libgain.dylib", "/out/Plugin"),
        TargetPlatform::Macos,
        "aarch64",
        macho(0x0100_000c, 6),
    )
    .unwrap();
    assert_eq!(
        step_paths(&mac),
        vec![
            "dir Contents/MacOS".to_string(),
            "dir Contents/Resources".to_string(),
            "copy Contents/MacOS/Plugin".to_string(),
            "write Contents/Info.plist".to_string(),
            "write Contents/PkgInfo".to_string()
        ]
    );
    let plist = written(&mac, "Contents/Info.plist");
    assert!(plist.contains("<key>CFBundleExecutable</key>\n    <string>Plugin</string>"));
    assert!(plist.contains("<string>Test &amp; Plugin</string>"));
    assert!(plist.contains("<string>com.sunmao.test-plugin</string>"));
    assert!(plist.contains("<key>CFBundleShortVersionString</key>\n    <string>1.2.3</string>"));
    assert_eq!(written(&mac, "Contents/PkgInfo"), "BNDL????");
}

#[test]
fn clap_plans_copy_the_module_into_place() {
    let mac = plan(
        &request(PackageFormat::Clap, "/src/libgain.dylib", "/out/Gain"),
        TargetPlatform::Macos,
        "x86_64",
        macho(0x0100_0007, 8),
    )
    .unwrap();
    assert_eq!(mac.output, "/out/Gain.clap");
    assert_eq!(mac.kind, OutputKind::Bundle);
    assert!(step_paths(&mac).contains(&"copy Contents/MacOS/Gain".to_string()));

    let linux = plan(
        &request(PackageFormat::Clap, "/src/libgain.so", "/out/Gain"),
        TargetPlatform::Linux,
        "x86_64",
        elf(2, 62, 1, 3),
    )
    .unwrap();
    assert_eq!(linux.output, "/out/Gain.clap");
    assert_eq!(linux.kind, OutputKind::File);
    assert_eq!(step_paths(&linux), vec!["copy ".to_string()]);
}


#[test]
fn au_plans_register_the_component() {
    let mut req = request(PackageFormat::Au, "/src/libgain.dylib", "/out/Gain");
    req.au = Some(AuMetadata {
        component_type: "aufx".to_string(),
        component_subtype: "gain".to_string(),
        manufacturer: "Smao".to_string(),
        factory: "RustAUFactory".to_string(),
        sandbox_safe: true,
    });
    let au = plan(&req, TargetPlatform::Macos, "aarch64", macho(0x0100_000c, 6)).unwrap();
    assert_eq!(au.output, "/out/Gain.component");
    assert!(step_paths(&au).contains(&"copy Contents/MacOS/Gain".to_string()));
    let plist = written(&au, "Contents/Info.plist");
    assert!(plist.contains("<key>factoryFunction</key>\n            <string>RustAUFactory</string>"));
    assert!(plist.contains("<key>type</key>\n            <string>aufx</string>"));
    assert!(plist.contains("<key>subtype</key>\n            <string>gain</string>"));
    assert!(plist.contains("<key>manufacturer</key>\n            <string>Smao</string>"));
    assert!(plist.contains("<key>sandboxSafe</key>\n            <true/>"));
    assert!(plist.contains("<key>version</key>\n            <integer>66051</integer>"));

    let linux = plan(&req, TargetPlatform::Linux, "x86_64", elf(2, 62, 1, 3));
    assert!(matches!(linux, Err(PackageError::AuRequiresMacos)));

    req.au = None;
    let missing = plan(&req, TargetPlatform::Macos, "aarch64", macho(0x0100_000c, 6));
    assert!(matches!(missing, Err(PackageError::AuMetadataMissing)));
}




#[test]
fn creates_cross_platform_standalone_artifacts() {
    let mac = plan(
        &request(PackageFormat::Standalone, "/tmp/t/source-macos", "/tmp/t/Mac Product"),
        TargetPlatform::Macos,
        "aarch64",
        macho(0x0100_000c, 2),
    )
    .unwrap();
    assert_eq!(mac.output, "/tmp/t/Mac Product.app");
    assert!(step_paths(&mac).contains(&"copy Contents/MacOS/Mac Product".to_string()));
    assert_eq!(written(&mac, "Contents/PkgInfo"), "APPL????");
    let plist = written(&mac, "Contents/Info.plist");
    assert!(plist.contains("<string>APPL</string>"));
    assert!(plist.contains("Test &amp; Plugin"));
    assert!(plist.contains("<key>NSHighResolutionCapable</key>\n    <true/>"));

    let windows = plan(
        &request(PackageFormat::Standalone, "/tmp/t/source-windows.exe", "/tmp/t/WinProduct.old"),
        TargetPlatform::Windows,
        "x86_64",
        pe(0x8664, 0x0002),
    )
    .unwrap();
    assert_eq!(windows.output, "/tmp/t/WinProduct.exe");
    assert_eq!(windows.kind, OutputKind::File);
    assert_eq!(step_paths(&windows), vec!["copy ".to_string()]);

    let linux = plan(
        &request(PackageFormat::Standalone, "/tmp/t/source-linux", "/tmp/t/LinuxProduct"),
        TargetPlatform::Linux,
        "x86_64",
        elf(2, 62, 1, 2),
    )
    .unwrap();
    assert_eq!(linux.output, "/tmp/t/LinuxProduct");
    assert_eq!(linux.kind, OutputKind::File);
    assert_eq!(step_paths(&linux), vec!["copy ".to_string()]);
}

#[test]
fn standalone_and_plugin_binary_kinds_are_not_interchangeable() {
    let mac = plan(
        &request(PackageFormat::Standalone, "/tmp/t/module-macos", "/tmp/t/MacModule"),
        TargetPlatform::Macos,
        "aarch64",
        macho(0x0100_000c, 6),
    );
    assert!(matches!(
        mac,
        Err(PackageError::InvalidBinary(BinaryKind::Executable, BinaryError::MachONotExecutable))
    ));
    let windows = plan(
        &request(PackageFormat::Standalone, "/tmp/t/module-windows.exe", "/tmp/t/WinModule"),
        TargetPlatform::Windows,
        "x86_64",
        pe(0x8664, 0x2000),
    );
    assert!(matches!(
        windows,
        Err(PackageError::InvalidBinary(BinaryKind::Executable, BinaryError::PeStandaloneIsDll))
    ));
    let linux = plan(
        &request(PackageFormat::Standalone, "/tmp/t/module-linux", "/tmp/t/LinuxModule"),
        TargetPlatform::Linux,
        "x86_64",
        elf(2, 62, 1, 3),
    );
    assert!(matches!(
        linux,
        Err(PackageError::InvalidBinary(
            BinaryKind::Executable,
            BinaryError::ElfDynWithoutInterpreter
        ))
    ));
    let plugin = plan(
        &request(PackageFormat::Clap, "/tmp/t/executable.dylib", "/tmp/t/MacExecutable"),
        TargetPlatform::Macos,
        "aarch64",
        macho(0x0100_000c, 2),
    );
    assert!(matches!(
        plugin,
        Err(PackageError::InvalidBinary(
            BinaryKind::DynamicModule,
            BinaryError::MachONotDylibOrBundle
        ))
    ));
}

#[test]
fn accepts_elf_pie_as_a_standalone_executable() {
    let pie = plan(
        &request(PackageFormat::Standalone, "/tmp/t/pie", "/tmp/t/PieExecutable"),
        TargetPlatform::Linux,
        "x86_64",
        elf_pie(62),
    )
    .unwrap();
    assert_eq!(pie.output, "/tmp/t/PieExecutable");
    assert_eq!(pie.kind, OutputKind::File);
}

#[test]
fn validation_failure_preserves_existing_output() {
    let mut invalid = request(PackageFormat::Vst3, "/tmp/t/source.so", "/tmp/t/Existing.vst3");
    invalid.bundle_id = "invalid".to_string();
    let existing = OutputFacts { existing: ExistingOutput::Directory, ..fresh_output() };
    let refused = package_for_target(
        &invalid,
        &Target::new(TargetPlatform::Linux, "x86_64"),
        TargetPlatform::Linux,
        &readable(elf(2, 62, 1, 3)),
        existing,
    );
    assert!(matches!(refused, Err(PackageError::BundleIdTooFewComponents)));
}

#[test]
fn rejects_directories_wrong_module_kinds_and_wrong_architectures() {
    let directory = package_for_target(
        &request(PackageFormat::Clap, "/tmp/t/directory.so", "/tmp/t/DirectoryInput"),
        &Target::new(TargetPlatform::Linux, "x86_64"),
        TargetPlatform::Linux,
        &BinaryFacts { exists: true, is_file: false, contents: None },
        fresh_output(),
    );
    assert!(matches!(directory, Err(PackageError::BinaryNotRegularFile)));

    let executable = plan(
        &request(PackageFormat::Clap, "/tmp/t/executable.dll", "/tmp/t/Executable"),
        TargetPlatform::Windows,
        "x86_64",
        pe(0x8664, 0),
    );
    assert!(matches!(
        executable,
        Err(PackageError::InvalidBinary(BinaryKind::DynamicModule, BinaryError::PeNotDll))
    ));

    let wrong_arch = plan(
        &request(PackageFormat::Vst3, "/tmp/t/wrong.so", "/tmp/t/WrongArch"),
        TargetPlatform::Linux,
        "x86_64",
        elf(2, 183, 1, 3),
    );
    assert!(matches!(
        wrong_arch,
        Err(PackageError::InvalidBinary(_, BinaryError::ElfMachineMismatch))
    ));
}

#[test]
fn refuses_missing_binaries_and_module_names_of_the_wrong_platform() {
    let missing = package_for_target(
        &request(PackageFormat::Clap, "/src/missing.so", "/out/Missing"),
        &Target::new(TargetPlatform::Linux, "x86_64"),
        TargetPlatform::Linux,
        &BinaryFacts { exists: false, is_file: false, contents: None },
        fresh_output(),
    );
    assert!(matches!(missing, Err(PackageError::BinaryMissing)));

    let wrong_extension = plan(
        &request(PackageFormat::Vst3, "/src/gain.dll", "/out/Gain"),
        TargetPlatform::Linux,
        "x86_64",
        elf(2, 62, 1, 3),
    );
    assert!(matches!(
        wrong_extension,
        Err(PackageError::BinaryWrongExtension(ModuleExtension::So))
    ));

    let no_extension = plan(
        &request(PackageFormat::Vst3, "/src/gain", "/out/Gain"),
        TargetPlatform::Linux,
        "x86_64",
        elf(2, 62, 1, 3),
    );
    assert!(matches!(no_extension, Err(PackageError::BinaryExtensionMissing)));

    let unsupported = plan(
        &request(PackageFormat::Vst3, "/src/gain.so", "/out/Gain"),
        TargetPlatform::Linux,
        "arm",
        elf(1, 40, 1, 3),
    );
    assert!(matches!(unsupported, Err(PackageError::Vst3UnsupportedArchitecture)));
}

#[test]
fn rejects_truncated_binary_headers_without_panicking() {
    let truncated_elf = plan(
        &request(PackageFormat::Clap, "/tmp/t/truncated.so", "/tmp/t/TruncatedElf"),
        TargetPlatform::Linux,
        "x86_64",
        b"\x7fELF\x02\x01".to_vec(),
    );
    assert!(matches!(
        truncated_elf,
        Err(PackageError::InvalidBinary(_, BinaryError::ElfHeaderTruncated))
    ));

    let mut pe_bytes = vec![0; 64];
    pe_bytes[..2].copy_from_slice(b"MZ");
    pe_bytes[60..64].copy_from_slice(&0x1000_u32.to_le_bytes());
    let truncated_pe = plan(
        &request(PackageFormat::Clap, "/tmp/t/truncated.dll", "/tmp/t/TruncatedPe"),
        TargetPlatform::Windows,
        "x86_64",
        pe_bytes,
    );
    assert!(matches!(
        truncated_pe,
        Err(PackageError::InvalidBinary(_, BinaryError::PeHeaderTruncated))
    ));

    let mut fat = vec![0; 16];
    fat[..4].copy_from_slice(&[0xca, 0xfe, 0xba, 0xbe]);
    fat[4..8].copy_from_slice(&1_u32.to_be_bytes());
    let truncated_fat = plan(
        &request(PackageFormat::Clap, "/tmp/t/truncated.dylib", "/tmp/t/TruncatedMachO"),
        TargetPlatform::Macos,
        "aarch64",
        fat,
    );
    assert!(matches!(
        truncated_fat,
        Err(PackageError::InvalidBinary(_, BinaryError::FatTableTruncated))
    ));
}

#[test]
fn rejects_elf_class_mismatches_for_target_architecture() {
    let wrong_class = plan(
        &request(PackageFormat::Clap, "/tmp/t/wrong-class.so", "/tmp/t/WrongClass"),
        TargetPlatform::Linux,
        "x86_64",
        elf(1, 62, 1, 3),
    );
    assert!(matches!(
        wrong_class,
        Err(PackageError::InvalidBinary(_, BinaryError::ElfClassMismatch))
    ));
}

#[test]
fn rejects_elf_byte_order_mismatches_for_target_architecture() {
    let wrong_endian = plan(
        &request(PackageFormat::Clap, "/tmp/t/wrong-endian.so", "/tmp/t/WrongEndian"),
        TargetPlatform::Linux,
        "x86_64",
        elf(2, 62, 2, 3),
    );
    assert!(matches!(
        wrong_endian,
        Err(PackageError::InvalidBinary(_, BinaryError::ElfByteOrderMismatch))
    ));
}

#[test]
fn rejects_elf_pie_executables_with_an_interpreter_segment() {
    let pie_module = plan(
        &request(PackageFormat::Clap, "/tmp/t/pie.so", "/tmp/t/PieExecutable"),
        TargetPlatform::Linux,
        "x86_64",
        elf_pie(62),
    );
    assert!(matches!(
        pie_module,
        Err(PackageError::InvalidBinary(BinaryKind::DynamicModule, BinaryError::ElfPieModule))
    ));
}

#[test]
fn version_and_architecture_names_are_strict() {
    assert_eq!(parse_version("1.2.3").unwrap(), [1, 2, 3]);
    assert!(parse_version("1.2.3.4").is_err());
    assert!(parse_version("1.beta").is_err());
    assert!(version_to_au_integer([65536, 0, 0]).is_err());
    assert_eq!(
        vst3_architecture_directory(&Target::new(TargetPlatform::Windows, "aarch64")).unwrap(),
        "arm_64-win"
    );
    assert_eq!(
        vst3_architecture_directory(&Target::new(TargetPlatform::Linux, "x86")).unwrap(),
        "i386-linux"
    );
    assert!(matches!(
        vst3_architecture_directory(&Target::new(TargetPlatform::Macos, "aarch64")),
        Err(PackageError::Vst3NoArchitectureDirectoryOnMacos)
    ));
}

#[test]
fn refused_requests_make_no_plan() {
    let mut bad_name = request(PackageFormat::Clap, "/src/gain.so", "/out/Gain");
    bad_name.name = " padded".to_string();
    assert!(matches!(
        plan(&bad_name, TargetPlatform::Linux, "x86_64", elf(2, 62, 1, 3)),
        Err(PackageError::TextEmptyOrPadded(TextField::PluginName))
    ));

    let mut bad_bundle = request(PackageFormat::Clap, "/src/gain.so", "/out/Gain");
    bad_bundle.bundle_id = "com..vendor".to_string();
    assert!(matches!(
        plan(&bad_bundle, TargetPlatform::Linux, "x86_64", elf(2, 62, 1, 3)),
        Err(PackageError::BundleIdInvalidComponent)
    ));

    let mut signed = request(PackageFormat::Clap, "/src/gain.so", "/out/Gain");
    signed.codesign = true;
    assert!(matches!(
        plan(&signed, TargetPlatform::Linux, "x86_64", elf(2, 62, 1, 3)),
        Err(PackageError::CodesignRequiresMacosTarget)
    ));
    let signed_mac = package_for_target(
        &request(PackageFormat::Clap, "/src/gain.dylib", "/out/Gain"),
        &Target::new(TargetPlatform::Macos, "aarch64"),
        TargetPlatform::Linux,
        &readable(macho(0x0100_000c, 6)),
        fresh_output(),
    );
    assert!(signed_mac.is_ok());
    let mut signed_request = request(PackageFormat::Clap, "/src/gain.dylib", "/out/Gain");
    signed_request.codesign = true;
    let signed_elsewhere = package_for_target(
        &signed_request,
        &Target::new(TargetPlatform::Macos, "aarch64"),
        TargetPlatform::Linux,
        &readable(macho(0x0100_000c, 6)),
        fresh_output(),
    );
    assert!(matches!(signed_elsewhere, Err(PackageError::CodesignRequiresMacosHost)));
}

#[test]
fn an_existing_output_of_the_wrong_kind_is_refused() {
    let req = request(PackageFormat::Vst3, "/src/gain.so", "/out/Gain");
    let target = Target::new(TargetPlatform::Linux, "x86_64");
    let facts = |existing| OutputFacts { existing, ..fresh_output() };
    let file_there = package_for_target(
        &req,
        &target,
        TargetPlatform::Linux,
        &readable(elf(2, 62, 1, 3)),
        facts(ExistingOutput::RegularFile),
    );
    assert!(matches!(file_there, Err(PackageError::OutputBundleNotDirectory)));
    let link_there = package_for_target(
        &req,
        &target,
        TargetPlatform::Linux,
        &readable(elf(2, 62, 1, 3)),
        facts(ExistingOutput::Symlink),
    );
    assert!(matches!(link_there, Err(PackageError::OutputIsSymlink)));
    let bundle_there = package_for_target(
        &req,
        &target,
        TargetPlatform::Linux,
        &readable(elf(2, 62, 1, 3)),
        facts(ExistingOutput::Directory),
    );
    assert!(bundle_there.is_ok());
    let same = package_for_target(
        &req,
        &target,
        TargetPlatform::Linux,
        &readable(elf(2, 62, 1, 3)),
        OutputFacts { aliases_binary: true, ..fresh_output() },
    );
    assert!(matches!(same, Err(PackageError::OutputSameAsInput)));
    assert!(matches!(
        validate_output_path(
            OutputFacts { ancestor: AncestorState::NotDirectory, ..fresh_output() },
            OutputKind::File
        ),
        Err(PackageError::OutputParentNotDirectory)
    ));
    assert!(matches!(
        validate_output_path(
            OutputFacts { existing: ExistingOutput::Directory, ..fresh_output() },
            OutputKind::File
        ),
        Err(PackageError::OutputFileNotRegular)
    ));
}

#[test]
fn artifact_names_take_the_format_extension() {
    let (path, stem) = output_artifact("/out/My Plugin", PackageFormat::Vst3, TargetPlatform::Linux).unwrap();
    assert_eq!(path, "/out/My Plugin.vst3");
    assert_eq!(stem, "My Plugin");
    let (path, stem) = output_artifact("/out/Gain.old/", PackageFormat::Clap, TargetPlatform::Macos).unwrap();
    assert_eq!(path, "/out/Gain.clap");
    assert_eq!(stem, "Gain");
    let (path, _) = output_artifact("Gain.exe", PackageFormat::Standalone, TargetPlatform::Linux).unwrap();
    assert_eq!(path, "Gain");
    assert!(matches!(
        output_artifact("", PackageFormat::Vst3, TargetPlatform::Linux),
        Err(PackageError::OutputUnnamed)
    ));
    assert!(matches!(
        output_artifact("/out/..", PackageFormat::Vst3, TargetPlatform::Linux),
        Err(PackageError::OutputUnnamed)
    ));
    assert!(matches!(
        output_artifact("/out/ .x", PackageFormat::Vst3, TargetPlatform::Linux),
        Err(PackageError::OutputStemInvalid)
    ));
}

#[test]
fn output_kinds_and_binary_kinds_follow_the_format() {
    assert_eq!(output_kind(PackageFormat::Clap, TargetPlatform::Windows), OutputKind::File);
    assert_eq!(output_kind(PackageFormat::Clap, TargetPlatform::Macos), OutputKind::Bundle);
    assert_eq!(output_kind(PackageFormat::Vst3, TargetPlatform::Linux), OutputKind::Bundle);
    assert_eq!(output_kind(PackageFormat::Standalone, TargetPlatform::Linux), OutputKind::File);
    assert_eq!(binary_kind(PackageFormat::Standalone), BinaryKind::Executable);
    assert_eq!(binary_kind(PackageFormat::Au), BinaryKind::DynamicModule);
}

#[test]
fn binary_extensions_are_compared_without_case() {
    let target = Target::new(TargetPlatform::Windows, "x86_64");
    let facts = readable(pe(0x8664, 0x2000));
    assert!(validate_binary("C:/src/Gain.DLL", &target, BinaryKind::DynamicModule, &facts).is_ok());
    let unreadable = BinaryFacts { exists: true, is_file: true, contents: None };
    assert!(matches!(
        validate_binary("C:/src/Gain.dll", &target, BinaryKind::DynamicModule, &unreadable),
        Err(PackageError::BinaryUnreadable)
    ));
}

#[test]
fn packaging_for_the_host_uses_the_host_as_target() {
    let host = Target::new(TargetPlatform::Linux, "x86_64");
    let result = package(
        &request(PackageFormat::Vst3, "/src/libgain.so", "/out/Gain"),
        &host,
        &readable(elf(2, 62, 1, 3)),
        fresh_output(),
    )
    .unwrap();
    assert_eq!(result.output, "/out/Gain.vst3");
    assert!(!result.codesign);
}

#[test]
fn sample_modules_pass_the_module_check_of_their_target() {
    let cases = [
        (TargetPlatform::Macos, "x86_64", "/t/source.dylib", 32),
        (TargetPlatform::Macos, "aarch64", "/t/source.dylib", 32),
        (TargetPlatform::Linux, "x86", "/t/source.so", 52),
        (TargetPlatform::Linux, "x86_64", "/t/source.so", 64),
        (TargetPlatform::Linux, "arm", "/t/source.so", 52),
        (TargetPlatform::Linux, "aarch64", "/t/source.so", 64),
        (TargetPlatform::Linux, "riscv64", "/t/source.so", 64),
        (TargetPlatform::Windows, "x86", "/t/source.dll", 128),
        (TargetPlatform::Windows, "x86_64", "/t/source.dll", 128),
        (TargetPlatform::Windows, "aarch64", "/t/source.dll", 128),
    ];
    for (platform, arch, path, len) in cases {
        let (p, bytes) = native_module(platform, arch, "/t/source").unwrap();
        assert_eq!(p, path);
        assert_eq!(bytes.len(), len);
        assert_eq!(
            validate_binary_header(platform, &bytes, arch, BinaryKind::DynamicModule),
            Ok(())
        );
        assert!(validate_binary_header(platform, &bytes, arch, BinaryKind::Executable).is_err());
    }
    let (_, elf) = native_module(TargetPlatform::Linux, "x86_64", "/t/source").unwrap();
    assert_eq!(&elf[..6], b"\x7fELF\x02\x01");
    assert_eq!(&elf[16..20], &[3, 0, 62, 0]);
    let (_, macho) = native_module(TargetPlatform::Macos, "aarch64", "/t/source").unwrap();
    assert_eq!(&macho[..8], &[0xcf, 0xfa, 0xed, 0xfe, 0x0c, 0, 0, 1]);
    assert!(native_module(TargetPlatform::Macos, "arm", "/t/source").is_none());
    assert!(native_module(TargetPlatform::Windows, "riscv64", "/t/source").is_none());
    assert_eq!(
        native_module(TargetPlatform::Linux, "aarch64", "/t/libgain.dylib").unwrap().0,
        "/t/libgain.so"
    );
}

#[test]
fn creates_standard_vst3_layouts_and_module_names() {
    let mac = plan(
        &request(PackageFormat::Vst3, "/tmp/t/libsource.dylib", "/tmp/t/Mac Product"),
        TargetPlatform::Macos,
        "aarch64",
        macho(0x0100_000c, 6),
    )
    .unwrap();
    assert!(step_paths(&mac).contains(&"copy Contents/MacOS/Mac Product".to_string()));
    let plist = written(&mac, "Contents/Info.plist");
    assert!(plist.contains("<string>Mac Product</string>"));
    assert!(plist.contains("Test &amp; Plugin"));

    let windows = plan(
        &request(PackageFormat::Vst3, "/tmp/t/source.dll", "/tmp/t/WinProduct.vst3"),
        TargetPlatform::Windows,
        "x86_64",
        pe(0x8664, 0x2000),
    )
    .unwrap();
    assert_eq!(windows.output, "/tmp/t/WinProduct.vst3");
    assert!(step_paths(&windows)
        .contains(&"copy Contents/x86_64-win/WinProduct.vst3".to_string()));

    let linux = plan(
        &request(PackageFormat::Vst3, "/tmp/t/libsource.so", "/tmp/t/LinuxProduct"),
        TargetPlatform::Linux,
        "aarch64",
        elf(2, 183, 1, 3),
    )
    .unwrap();
    assert_eq!(linux.output, "/tmp/t/LinuxProduct.vst3");
    assert!(step_paths(&linux)
        .contains(&"copy Contents/aarch64-linux/LinuxProduct.so".to_string()));
}

#[test]
fn creates_clap_bundle_on_macos_and_single_files_elsewhere() {
    let mac = plan(
        &request(PackageFormat::Clap, "/tmp/t/source.dylib", "/tmp/t/MacClap"),
        TargetPlatform::Macos,
        "aarch64",
        macho(0x0100_000c, 6),
    )
    .unwrap();
    assert!(step_paths(&mac).contains(&"copy Contents/MacOS/MacClap".to_string()));
    assert!(!mac.codesign);
    assert!(!step_paths(&mac).iter().any(|step| step.contains("_CodeSignature")));

    let linux = plan(
        &request(PackageFormat::Clap, "/tmp/t/source.so", "/tmp/t/LinuxClap"),
        TargetPlatform::Linux,
        "x86_64",
        elf(2, 62, 1, 3),
    )
    .unwrap();
    assert_eq!(linux.output, "/tmp/t/LinuxClap.clap");
    assert_eq!(linux.kind, OutputKind::File);
    assert_eq!(step_paths(&linux), vec!["copy ".to_string()]);
}

#[test]
fn creates_audio_unit_metadata_and_standard_module_name() {
    let mut au = request(PackageFormat::Au, "/tmp/t/libsource.dylib", "/tmp/t/Audio Unit");
    au.au = Some(AuMetadata {
        component_type: "aufx".to_string(),
        component_subtype: "test".to_string(),
        manufacturer: "SunM".to_string(),
        factory: "RustAUFactory".to_string(),
        sandbox_safe: true,
    });
    let output = plan(&au, TargetPlatform::Macos, "aarch64", macho(0x0100_000c, 6)).unwrap();
    assert!(step_paths(&output).contains(&"copy Contents/MacOS/Audio Unit".to_string()));
    let plist = written(&output, "Contents/Info.plist");
    assert!(plist.contains("<integer>66051</integer>"));
    assert!(plist.contains("<string>SunM</string>"));
    assert!(plist.contains("<true/>"));
}

#[test]
fn au_packages_register_the_requested_codes() {
    let mut au = request(PackageFormat::Au, "/tmp/t/libsource.dylib", "/tmp/t/Audio Unit");
    au.au = Some(AuMetadata {
        component_type: "aumu".to_string(),
        component_subtype: "Syn1".to_string(),
        manufacturer: "SunM".to_string(),
        factory: "RustAUFactory".to_string(),
        sandbox_safe: false,
    });
    let output = plan(&au, TargetPlatform::Macos, "x86_64", macho(0x0100_0007, 8)).unwrap();
    let plist = written(&output, "Contents/Info.plist");
    assert_eq!(
        sunmao_tools::scanner::extract_au_description(&plist),
        Some((0x6175_6D75, 0x5379_6E31, 0x5375_6E4D))
    );
    assert!(plist.contains("<false/>"));
}

#[test]
fn vst3_bundles_hold_their_module_where_the_host_looks() {
    for (platform, os, arch, bytes) in [
        (TargetPlatform::Linux, "linux", "aarch64", elf(2, 183, 1, 3)),
        (TargetPlatform::Windows, "windows", "x86_64", pe(0x8664, 0x2000)),
    ] {
        let binary = if platform == TargetPlatform::Linux { "/t/libgain.so" } else { "/t/gain.dll" };
        let out = plan(&request(PackageFormat::Vst3, binary, "/t/My Gain"), platform, arch, bytes)
            .unwrap();
        let (dir, names) = vst3_module_search(&out.output, os, arch).unwrap();
        let steps = step_paths(&out);
        let copied = steps[1].strip_prefix("copy ").unwrap();
        assert_eq!(format!("{}/{}", out.output, copied), format!("{}/{}", dir, names[0]));
    }
}

#[test]
fn every_artifact_carries_its_format_extension() {
    let formats = [
        (PackageFormat::Au, TargetPlatform::Macos, "component"),
        (PackageFormat::Vst3, TargetPlatform::Windows, "vst3"),
        (PackageFormat::Clap, TargetPlatform::Linux, "clap"),
        (PackageFormat::Standalone, TargetPlatform::Macos, "app"),
        (PackageFormat::Standalone, TargetPlatform::Windows, "exe"),
    ];
    for out in ["/out/Gain", "/out/Gain.old/", "/out/.hidden", "rel/a.b.c", "x//y/./", "Gain..v"] {
        for (format, platform, ext) in formats {
            let (path, _) = output_artifact(out, format, platform).unwrap();
            assert_eq!(
                std::path::Path::new(&path).extension().and_then(|e| e.to_str()),
                Some(ext),
                "{out} as {ext} gave {path}"
            );
        }
    }
}

#[test]
fn refusals_are_explained_with_the_binary_and_the_target() {
    let check = |format, binary: &str, platform, arch: &str, bytes: Vec<u8>, expected: &str| {
        let req = request(format, binary, "/tmp/t/Out");
        let text = why(plan(&req, platform, arch, bytes), &req, platform, arch);
        assert!(text.contains(expected), "{text}");
        text
    };
    check(PackageFormat::Standalone, "/tmp/t/m", TargetPlatform::Macos, "aarch64", macho(0x0100_000c, 6), "MH_EXECUTE");
    check(PackageFormat::Standalone, "/tmp/t/m.exe", TargetPlatform::Windows, "x86_64", pe(0x8664, 0x2000), "marked as a DLL");
    check(PackageFormat::Standalone, "/tmp/t/m", TargetPlatform::Linux, "x86_64", elf(2, 62, 1, 3), "no PT_INTERP");
    check(PackageFormat::Clap, "/tmp/t/e.dylib", TargetPlatform::Macos, "aarch64", macho(0x0100_000c, 2), "dynamic library or bundle");
    check(PackageFormat::Clap, "/tmp/t/e.dll", TargetPlatform::Windows, "x86_64", pe(0x8664, 0), "not marked as a DLL");
    let wrong = check(PackageFormat::Vst3, "/tmp/t/w.so", TargetPlatform::Linux, "x86_64", elf(2, 183, 1, 3), "architecture");
    assert_eq!(wrong, "invalid plugin module /tmp/t/w.so: ELF architecture does not match target architecture 'x86_64'");
    check(PackageFormat::Clap, "/tmp/t/t.so", TargetPlatform::Linux, "x86_64", b"\x7fELF\x02\x01".to_vec(), "ELF header is truncated");
    check(PackageFormat::Clap, "/tmp/t/c.so", TargetPlatform::Linux, "x86_64", elf(1, 62, 1, 3), "ELF class");
    check(PackageFormat::Clap, "/tmp/t/o.so", TargetPlatform::Linux, "x86_64", elf(2, 62, 2, 3), "ELF byte order");
    check(PackageFormat::Clap, "/tmp/t/p.so", TargetPlatform::Linux, "x86_64", elf_pie(62), "PIE executable");
    let mut fat = vec![0; 16];
    fat[..4].copy_from_slice(&[0xca, 0xfe, 0xba, 0xbe]);
    fat[4..8].copy_from_slice(&1_u32.to_be_bytes());
    check(PackageFormat::Clap, "/tmp/t/f.dylib", TargetPlatform::Macos, "aarch64", fat, "architecture table is truncated");
    let mut pe_bytes = vec![0; 64];
    pe_bytes[..2].copy_from_slice(b"MZ");
    pe_bytes[60..64].copy_from_slice(&0x1000_u32.to_le_bytes());
    check(PackageFormat::Clap, "/tmp/t/t.dll", TargetPlatform::Windows, "x86_64", pe_bytes, "PE header is truncated");
    let wrong_ext = check(PackageFormat::Vst3, "/tmp/t/g.dll", TargetPlatform::Linux, "x86_64", elf(2, 62, 1, 3), "extension");
    assert_eq!(wrong_ext, "input binary for Linux must have a .so extension, got /tmp/t/g.dll");

    let mut invalid = request(PackageFormat::Vst3, "/tmp/t/s.so", "/tmp/t/Existing");
    invalid.bundle_id = "invalid".to_string();
    let text = why(plan(&invalid, TargetPlatform::Linux, "x86_64", elf(2, 62, 1, 3)), &invalid, TargetPlatform::Linux, "x86_64");
    assert!(text.contains("bundle identifier"));
    let directory = request(PackageFormat::Clap, "/tmp/t/directory.so", "/tmp/t/D");
    let refused = package_for_target(
        &directory,
        &Target::new(TargetPlatform::Linux, "x86_64"),
        TargetPlatform::Linux,
        &BinaryFacts { exists: true, is_file: false, contents: None },
        fresh_output(),
    );
    let text = why(refused, &directory, TargetPlatform::Linux, "x86_64");
    assert_eq!(text, "input binary is not a regular file: /tmp/t/directory.so");
    assert_eq!(
        describe(&PackageError::TextTooLong(TextField::PluginName, 255), "", &Target::new(TargetPlatform::Linux, "x86_64"), ""),
        "plugin name is longer than 255 bytes"
    );
    assert_eq!(
        describe(&PackageError::VersionComponentTooLarge("99999999999".to_string()), "", &Target::new(TargetPlatform::Linux, "x86_64"), ""),
        "version component '99999999999' is too large"
    );
}
