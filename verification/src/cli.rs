//! The packaging commands' arguments turned into requests.
use vstd::prelude::*;
use crate::request::{AuMetadata, AuMetadataView, PackageFormat, PackageRequest, RequestView};

verus! {

/// The unified packager's arguments.
#[derive(Clone, Debug)]
pub struct PackagerArgs {
    pub format: PackageFormat,
    pub binary: String,
    pub out: String,
    pub name: String,
    pub bundle_id: String,
    pub version: String,
    pub codesign: bool,
    pub au_type: Option<String>,
    pub au_subtype: Option<String>,
    pub au_manufacturer: Option<String>,
    pub au_factory: String,
    pub au_sandbox_safe: bool,
}

pub const AU_TYPE_REQUIRED: &'static str = "--au-type is required for AU format";

pub const AU_SUBTYPE_REQUIRED: &'static str = "--au-subtype is required for AU format";

pub const AU_MANUFACTURER_REQUIRED: &'static str = "--au-manufacturer is required for AU format";

/// Why the unified packager's arguments make no request: an AU request
/// needs its three codes.
pub open spec fn packager_args_fault(args: PackagerArgs) -> Option<Seq<char>> {
    if args.format != PackageFormat::Au {
        None
    } else if args.au_type is None {
        Some(AU_TYPE_REQUIRED@)
    } else if args.au_subtype is None {
        Some(AU_SUBTYPE_REQUIRED@)
    } else if args.au_manufacturer is None {
        Some(AU_MANUFACTURER_REQUIRED@)
    } else {
        None
    }
}

/// The request the unified packager's arguments make; AU metadata only for
/// the AU format.
pub open spec fn packager_request_view(args: PackagerArgs) -> RequestView {
    RequestView {
        format: args.format,
        binary: args.binary@,
        out: args.out@,
        name: args.name@,
        bundle_id: args.bundle_id@,
        version: args.version@,
        codesign: args.codesign,
        au: if args.format == PackageFormat::Au {
            Some(
                AuMetadataView {
                    component_type: args.au_type->0@,
                    component_subtype: args.au_subtype->0@,
                    manufacturer: args.au_manufacturer->0@,
                    factory: args.au_factory@,
                    sandbox_safe: args.au_sandbox_safe,
                },
            )
        } else {
            None
        },
    }
}

fn required(value: &Option<String>, missing: &'static str) -> (r: Result<String, String>)
    ensures
        match value {
            Some(v) => r matches Ok(s) && s@ == v@,
            None => r matches Err(m) && m@ == missing@,
        },
{
    match value {
        Some(v) => Ok(v.clone()),
        None => Err(missing.to_owned()),
    }
}

/// The request of the unified packager's arguments.
pub fn packager_request(args: &PackagerArgs) -> (r: Result<PackageRequest, String>)
    ensures
        match packager_args_fault(*args) {
            Some(m) => r matches Err(e) && e@ == m,
            None => r matches Ok(req) && req@ == packager_request_view(*args),
        },
{
    let au = if args.format == PackageFormat::Au {
        let component_type = required(&args.au_type, AU_TYPE_REQUIRED)?;
        let component_subtype = required(&args.au_subtype, AU_SUBTYPE_REQUIRED)?;
        let manufacturer = required(&args.au_manufacturer, AU_MANUFACTURER_REQUIRED)?;
        Some(
            AuMetadata {
                component_type,
                component_subtype,
                manufacturer,
                factory: args.au_factory.clone(),
                sandbox_safe: args.au_sandbox_safe,
            },
        )
    } else {
        None
    };
    Ok(
        PackageRequest {
            format: args.format,
            binary: args.binary.clone(),
            out: args.out.clone(),
            name: args.name.clone(),
            bundle_id: args.bundle_id.clone(),
            version: args.version.clone(),
            codesign: args.codesign,
            au,
        },
    )
}

/// The CLAP packager's usage line.
pub fn usage() -> (s: &'static str)
    ensures
        s@ == "Usage: clap_packager <binary> <bundle-path> <bundle-id> <bundle-name> <version>"@,
{
    "Usage: clap_packager <binary> <bundle-path> <bundle-id> <bundle-name> <version>"
}

/// The request of the CLAP packager's positional arguments (the program
/// name first): exactly five, in the order binary, bundle path, bundle
/// identifier, name, version; none otherwise.
pub fn clap_packager_request(args: &Vec<String>) -> (r: Option<PackageRequest>)
    ensures
        args@.len() != 6 <==> r is None,
        r matches Some(req) ==> req@ == (RequestView {
            format: PackageFormat::Clap,
            binary: args@[1]@,
            out: args@[2]@,
            name: args@[4]@,
            bundle_id: args@[3]@,
            version: args@[5]@,
            codesign: false,
            au: None,
        }),
{
    if args.len() != 6 {
        return None;
    }
    Some(
        PackageRequest {
            format: PackageFormat::Clap,
            binary: args[1].clone(),
            out: args[2].clone(),
            name: args[4].clone(),
            bundle_id: args[3].clone(),
            version: args[5].clone(),
            codesign: false,
            au: None,
        },
    )
}

} // verus!
