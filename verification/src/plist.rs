//! The `Info.plist` documents written into macOS bundles.
//!
//! Each document is fixed text with the request's values put in, every value
//! XML-escaped on the way.
use vstd::prelude::*;
use crate::text::{decimal, push_decimal};
use crate::xml::{xml_escape, xml_escaped};
use crate::request::{
    au_version_fits, au_version_value, version_to_au_integer, AuMetadata, AuMetadataView, PackageError, PackageFault,
};

verus! {

/// Up to the `CFBundleExecutable` value.
pub const PLIST_HEAD: &'static str = "<?xml version=\"1.0\" encoding=\"UTF-8\"?>\n<!DOCTYPE plist PUBLIC \"-//Apple//DTD PLIST 1.0//EN\" \"http://www.apple.com/DTDs/PropertyList-1.0.dtd\">\n<plist version=\"1.0\">\n<dict>\n    <key>CFBundleDevelopmentRegion</key>\n    <string>English</string>\n    <key>CFBundleExecutable</key>\n    <string>";

/// Between the executable and the bundle identifier.
pub const PLIST_AFTER_EXECUTABLE: &'static str = "</string>\n    <key>CFBundleIdentifier</key>\n    <string>";

/// Between the bundle identifier and the bundle name.
pub const PLIST_AFTER_IDENTIFIER: &'static str = "</string>\n    <key>CFBundleInfoDictionaryVersion</key>\n    <string>6.0</string>\n    <key>CFBundleName</key>\n    <string>";

/// Between the name and the first version, in a plug-in bundle.
pub const PLIST_BUNDLE_TYPE: &'static str = "</string>\n    <key>CFBundlePackageType</key>\n    <string>BNDL</string>\n    <key>CFBundleSignature</key>\n    <string>????</string>\n    <key>CFBundleVersion</key>\n    <string>";

/// Between the name and the display name, in an application bundle.
pub const PLIST_DISPLAY_NAME: &'static str = "</string>\n    <key>CFBundleDisplayName</key>\n    <string>";

/// Between the display name and the first version, in an application bundle.
pub const PLIST_APP_TYPE: &'static str = "</string>\n    <key>CFBundlePackageType</key>\n    <string>APPL</string>\n    <key>CFBundleSignature</key>\n    <string>????</string>\n    <key>CFBundleVersion</key>\n    <string>";

/// Between the two version values.
pub const PLIST_SHORT_VERSION: &'static str = "</string>\n    <key>CFBundleShortVersionString</key>\n    <string>";

/// The end of a plug-in bundle's document.
pub const PLIST_BUNDLE_END: &'static str = "</string>\n</dict>\n</plist>\n";

/// The end of an application bundle's document.
pub const PLIST_APP_END: &'static str = "</string>\n    <key>NSHighResolutionCapable</key>\n    <true/>\n</dict>\n</plist>\n";

/// From the second version to the component description.
pub const AU_DESCRIPTION: &'static str = "</string>\n    <key>AudioComponents</key>\n    <array>\n        <dict>\n            <key>description</key>\n            <string>";

/// Between the description and the factory function.
pub const AU_FACTORY: &'static str = "</string>\n            <key>factoryFunction</key>\n            <string>";

/// Between the factory function and the manufacturer.
pub const AU_MANUFACTURER: &'static str = "</string>\n            <key>manufacturer</key>\n            <string>";

/// Between the manufacturer and the component name.
pub const AU_NAME: &'static str = "</string>\n            <key>name</key>\n            <string>";

/// Between the component name and the sandbox flag.
pub const AU_SANDBOX: &'static str = "</string>\n            <key>sandboxSafe</key>\n            <";

/// Between the sandbox flag and the subtype.
pub const AU_SUBTYPE: &'static str = "/>\n            <key>subtype</key>\n            <string>";

/// Between the subtype and the type.
pub const AU_TYPE: &'static str = "</string>\n            <key>type</key>\n            <string>";

/// Between the type and the packed version.
pub const AU_VERSION: &'static str = "</string>\n            <key>version</key>\n            <integer>";

/// The end of an AU bundle's document.
pub const AU_END: &'static str = "</integer>\n        </dict>\n    </array>\n</dict>\n</plist>\n";

/// The part every bundle document shares: up to and with the bundle name.
pub open spec fn plist_identity(exec_name: Seq<char>, bundle_id: Seq<char>, name: Seq<char>) -> Seq<
    char,
> {
    PLIST_HEAD@ + xml_escaped(exec_name) + PLIST_AFTER_EXECUTABLE@ + xml_escaped(bundle_id)
        + PLIST_AFTER_IDENTIFIER@ + xml_escaped(name)
}

/// What follows the bundle name in a plug-in bundle's `Info.plist`.
pub open spec fn bundle_plist_tail(version: Seq<char>) -> Seq<char> {
    PLIST_BUNDLE_TYPE@ + xml_escaped(version) + PLIST_SHORT_VERSION@ + xml_escaped(version)
        + PLIST_BUNDLE_END@
}

/// A plug-in bundle's `Info.plist` (VST3 and CLAP on macOS).
pub open spec fn bundle_plist_text(
    exec_name: Seq<char>,
    bundle_id: Seq<char>,
    name: Seq<char>,
    version: Seq<char>,
) -> Seq<char> {
    plist_identity(exec_name, bundle_id, name) + bundle_plist_tail(version)
}

/// What follows the bundle name in an application bundle's `Info.plist`.
pub open spec fn standalone_plist_tail(name: Seq<char>, version: Seq<char>) -> Seq<char> {
    PLIST_DISPLAY_NAME@ + xml_escaped(name) + PLIST_APP_TYPE@ + xml_escaped(version)
        + PLIST_SHORT_VERSION@ + xml_escaped(version) + PLIST_APP_END@
}

/// An application bundle's `Info.plist`.
pub open spec fn standalone_plist_text(
    exec_name: Seq<char>,
    bundle_id: Seq<char>,
    name: Seq<char>,
    version: Seq<char>,
) -> Seq<char> {
    plist_identity(exec_name, bundle_id, name) + standalone_plist_tail(name, version)
}

/// The sandbox flag as an empty XML element's name.
pub open spec fn sandbox_word(safe: bool) -> Seq<char> {
    if safe {
        "true"@
    } else {
        "false"@
    }
}

/// What follows the bundle name in an AU bundle's `Info.plist`: the
/// versions and the AudioComponent registration.
pub open spec fn au_plist_tail(
    name: Seq<char>,
    version: Seq<char>,
    au: AuMetadataView,
    packed_version: nat,
) -> Seq<char> {
    PLIST_BUNDLE_TYPE@ + xml_escaped(version) + PLIST_SHORT_VERSION@ + xml_escaped(version)
        + AU_DESCRIPTION@ + xml_escaped(name) + AU_FACTORY@ + xml_escaped(au.factory)
        + AU_MANUFACTURER@ + xml_escaped(au.manufacturer) + AU_NAME@ + xml_escaped(name)
        + AU_SANDBOX@ + sandbox_word(au.sandbox_safe) + AU_SUBTYPE@ + xml_escaped(
        au.component_subtype,
    ) + AU_TYPE@ + xml_escaped(au.component_type) + AU_VERSION@ + decimal(packed_version)
        + AU_END@
}

/// An AU bundle's `Info.plist`.
pub open spec fn au_plist_text(
    exec_name: Seq<char>,
    bundle_id: Seq<char>,
    name: Seq<char>,
    version: Seq<char>,
    au: AuMetadataView,
    packed_version: nat,
) -> Seq<char> {
    plist_identity(exec_name, bundle_id, name) + au_plist_tail(name, version, au, packed_version)
}

fn push_escaped(out: &mut String, value: &str)
    ensures
        final(out)@ == old(out)@ + xml_escaped(value@),
{
    let escaped = xml_escape(value);
    out.append(escaped.as_str());
}

fn plist_identity_into(out: &mut String, exec_name: &str, bundle_id: &str, name: &str)
    ensures
        final(out)@ == old(out)@ + plist_identity(exec_name@, bundle_id@, name@),
{
    let ghost start = out@;
    out.append(PLIST_HEAD);
    push_escaped(out, exec_name);
    out.append(PLIST_AFTER_EXECUTABLE);
    push_escaped(out, bundle_id);
    out.append(PLIST_AFTER_IDENTIFIER);
    push_escaped(out, name);
    assert(out@ =~= start + plist_identity(exec_name@, bundle_id@, name@));
}

/// The `Info.plist` of a VST3 or CLAP bundle.
pub fn bundle_plist(exec_name: &str, bundle_id: &str, name: &str, version: &str) -> (s: String)
    ensures
        s@ == bundle_plist_text(exec_name@, bundle_id@, name@, version@),
{
    let mut out = String::new();
    plist_identity_into(&mut out, exec_name, bundle_id, name);
    out.append(PLIST_BUNDLE_TYPE);
    push_escaped(&mut out, version);
    out.append(PLIST_SHORT_VERSION);
    push_escaped(&mut out, version);
    out.append(PLIST_BUNDLE_END);
    assert(out@ =~= bundle_plist_text(exec_name@, bundle_id@, name@, version@));
    out
}

/// The `Info.plist` of a standalone application bundle.
pub fn standalone_plist(exec_name: &str, bundle_id: &str, name: &str, version: &str) -> (s: String)
    ensures
        s@ == standalone_plist_text(exec_name@, bundle_id@, name@, version@),
{
    let mut out = String::new();
    plist_identity_into(&mut out, exec_name, bundle_id, name);
    out.append(PLIST_DISPLAY_NAME);
    push_escaped(&mut out, name);
    out.append(PLIST_APP_TYPE);
    push_escaped(&mut out, version);
    out.append(PLIST_SHORT_VERSION);
    push_escaped(&mut out, version);
    out.append(PLIST_APP_END);
    assert(out@ =~= standalone_plist_text(exec_name@, bundle_id@, name@, version@));
    out
}

fn au_plist_tail_into(out: &mut String, name: &str, version: &str, au: &AuMetadata, packed: u32)
    ensures
        final(out)@ == old(out)@ + au_plist_tail(name@, version@, au@, packed as nat),
{
    let ghost start = out@;
    out.append(PLIST_BUNDLE_TYPE);
    push_escaped(out, version);
    out.append(PLIST_SHORT_VERSION);
    push_escaped(out, version);
    out.append(AU_DESCRIPTION);
    push_escaped(out, name);
    out.append(AU_FACTORY);
    push_escaped(out, au.factory.as_str());
    out.append(AU_MANUFACTURER);
    push_escaped(out, au.manufacturer.as_str());
    out.append(AU_NAME);
    push_escaped(out, name);
    out.append(AU_SANDBOX);
    if au.sandbox_safe {
        out.append("true");
    } else {
        out.append("false");
    }
    out.append(AU_SUBTYPE);
    push_escaped(out, au.component_subtype.as_str());
    out.append(AU_TYPE);
    push_escaped(out, au.component_type.as_str());
    out.append(AU_VERSION);
    push_decimal(out, packed as u64);
    out.append(AU_END);
    assert(out@ =~= start + au_plist_tail(name@, version@, au@, packed as nat));
}

/// The `Info.plist` of an AU bundle; refused when the version does not pack
/// into the AudioComponent version integer.
pub fn au_plist(
    exec_name: &str,
    bundle_id: &str,
    name: &str,
    version: &str,
    parsed_version: [u32; 3],
    au: &AuMetadata,
) -> (r: Result<String, PackageError>)
    ensures
        r is Ok <==> au_version_fits(parsed_version@),
        r matches Err(e) ==> e@ == PackageFault::AuVersionOutOfRange,
        r matches Ok(s) ==> s@ == au_plist_text(
            exec_name@,
            bundle_id@,
            name@,
            version@,
            au@,
            au_version_value(parsed_version@[0], parsed_version@[1], parsed_version@[2]) as nat,
        ),
{
    let packed = version_to_au_integer(parsed_version)?;
    let mut out = String::new();
    plist_identity_into(&mut out, exec_name, bundle_id, name);
    au_plist_tail_into(&mut out, name, version, au, packed);
    assert(out@ =~= au_plist_text(
        exec_name@,
        bundle_id@,
        name@,
        version@,
        au@,
        packed as nat,
    ));
    Ok(out)
}

} // verus!
