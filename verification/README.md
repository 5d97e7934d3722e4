# sunmao_tools

The decisions behind SunMao's plug-in tooling, written in Verus: packaging
AU, VST3, CLAP and standalone artifacts, and the pure parts of the plug-in
test host (plug-in discovery, preset files, buffer checks, the session
language). Every function in `src/` carries a contract that Verus proves,
but for two wrappers around std's UTF-8 decoding (`utf8_str` in
`src/preset.rs`, `lossy_string` in `src/scanner.rs`), whose contracts are
taken on trust.

## Layout

| Path | What it holds |
| --- | --- |
| `src/text.rs` | character classes, trimming, decimal spelling, case-insensitive comparison |
| `src/paths.rs` | file names, stems, extensions and parent directories of `/`-separated paths |
| `src/xml.rs` | XML entity escaping and decoding, and the law that decoding undoes escaping |
| `src/binary.rs` | ELF, PE/COFF and Mach-O header checks for a target architecture, and the smallest module images that pass them |
| `src/request.rs` | packaging requests, their targets, and the checks on their text fields |
| `src/plist.rs` | the `Info.plist` documents written into macOS bundles |
| `src/packager.rs` | validation of a request and the plan that lays out its artifact |
| `src/messages.rs` | the texts that explain a refused request |
| `src/au.rs` | the AudioUnit front end: legacy packed versions and its own flags |
| `src/cli.rs` | the packaging commands' arguments turned into requests |
| `src/preset.rs` | `.vstpreset` and CLAP preset files, and VST3 class ids |
| `src/host.rs` | plug-in records, module suffixes, process-block, input-event and bus-arrangement checks, gesture evidence, result reports |
| `src/scanner.rs` | plug-in discovery: bundle layouts, `Info.plist` values, AudioComponent codes |
| `src/gui.rs` | editor-window style, UTF-16 strings for Win32, drag-gesture scoring |
| `src/gui_test.rs` | the `gui-test` command's arguments |
| `src/interactive.rs` | the interactive host's line language and its numeric operands |
| `app/` | the `sunmao_packager`, `au_packager` and `clap_packager` commands: arguments, file system, staging and publication |
| `tests/` | scenarios on concrete values |

The library never touches the file system. The commands in `app/` read what
the packager needs to know about the input binary and the artifact path,
hand it to `package`, and carry out the returned plan in a staging directory
that replaces the artifact only once every step has succeeded.
