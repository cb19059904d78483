//! Where the PDFium library lives for each supported host, and which
//! prebuilt archive serves it. The host's OS and architecture names are
//! those of `std::env::consts`.

use vstd::prelude::*;

use crate::text::{chars_eq_str, chars_of};

verus! {

/// The target triple of a host, or `"unknown"`.
pub open spec fn host_triple_spec(os: Seq<char>, arch: Seq<char>) -> Seq<char> {
    if os == "macos"@ && arch == "aarch64"@ {
        "aarch64-apple-darwin"@
    } else if os == "macos"@ && arch == "x86_64"@ {
        "x86_64-apple-darwin"@
    } else if os == "linux"@ && arch == "x86_64"@ {
        "x86_64-unknown-linux-gnu"@
    } else if os == "linux"@ && arch == "aarch64"@ {
        "aarch64-unknown-linux-gnu"@
    } else if os == "windows"@ && arch == "x86_64"@ {
        "x86_64-pc-windows-msvc"@
    } else {
        "unknown"@
    }
}

fn is(s: &Vec<char>, lit: &str) -> (r: bool)
    ensures
        r == (s@ == lit@),
{
    chars_eq_str(s, lit)
}

/// The target triple for a host, as the PDFium download layout names its
/// directories.
pub fn host_triple(os: &str, arch: &str) -> (r: &'static str)
    ensures
        r@ == host_triple_spec(os@, arch@),
{
    let o = chars_of(os);
    let a = chars_of(arch);
    if is(&o, "macos") && is(&a, "aarch64") {
        "aarch64-apple-darwin"
    } else if is(&o, "macos") && is(&a, "x86_64") {
        "x86_64-apple-darwin"
    } else if is(&o, "linux") && is(&a, "x86_64") {
        "x86_64-unknown-linux-gnu"
    } else if is(&o, "linux") && is(&a, "aarch64") {
        "aarch64-unknown-linux-gnu"
    } else if is(&o, "windows") && is(&a, "x86_64") {
        "x86_64-pc-windows-msvc"
    } else {
        "unknown"
    }
}

/// The prebuilt PDFium archive for a host and the library's path inside
/// it; none for an unsupported host.
pub open spec fn host_asset_spec(os: Seq<char>, arch: Seq<char>) -> Option<(Seq<char>, Seq<char>)> {
    if os == "macos"@ && arch == "aarch64"@ {
        Some(("pdfium-mac-arm64.tgz"@, "lib/libpdfium.dylib"@))
    } else if os == "macos"@ && arch == "x86_64"@ {
        Some(("pdfium-mac-x64.tgz"@, "lib/libpdfium.dylib"@))
    } else if os == "linux"@ && arch == "x86_64"@ {
        Some(("pdfium-linux-x64.tgz"@, "lib/libpdfium.so"@))
    } else if os == "linux"@ && arch == "aarch64"@ {
        Some(("pdfium-linux-arm64.tgz"@, "lib/libpdfium.so"@))
    } else if os == "windows"@ && arch == "x86_64"@ {
        Some(("pdfium-win-x64.tgz"@, "bin/pdfium.dll"@))
    } else {
        None
    }
}

/// The prebuilt PDFium archive to download for a host, and where the
/// library sits inside it.
pub fn host_asset(os: &str, arch: &str) -> (r: Option<(&'static str, &'static str)>)
    ensures
        match host_asset_spec(os@, arch@) {
            Some((a, l)) => r matches Some((x, y)) && x@ == a && y@ == l,
            None => r is None,
        },
{
    let o = chars_of(os);
    let a = chars_of(arch);
    if is(&o, "macos") && is(&a, "aarch64") {
        Some(("pdfium-mac-arm64.tgz", "lib/libpdfium.dylib"))
    } else if is(&o, "macos") && is(&a, "x86_64") {
        Some(("pdfium-mac-x64.tgz", "lib/libpdfium.dylib"))
    } else if is(&o, "linux") && is(&a, "x86_64") {
        Some(("pdfium-linux-x64.tgz", "lib/libpdfium.so"))
    } else if is(&o, "linux") && is(&a, "aarch64") {
        Some(("pdfium-linux-arm64.tgz", "lib/libpdfium.so"))
    } else if is(&o, "windows") && is(&a, "x86_64") {
        Some(("pdfium-win-x64.tgz", "bin/pdfium.dll"))
    } else {
        None
    }
}

/// The directory and file name of the PDFium library under a triple's
/// directory, by operating system.
pub open spec fn library_location_spec(os: Seq<char>) -> (Seq<char>, Seq<char>) {
    if os == "windows"@ {
        ("bin"@, "pdfium.dll"@)
    } else if os == "macos"@ {
        ("lib"@, "libpdfium.dylib"@)
    } else {
        ("lib"@, "libpdfium.so"@)
    }
}

/// Where the PDFium library sits under a triple's directory.
pub fn library_location(os: &str) -> (r: (&'static str, &'static str))
    ensures
        r.0@ == library_location_spec(os@).0,
        r.1@ == library_location_spec(os@).1,
{
    let o = chars_of(os);
    if is(&o, "windows") {
        ("bin", "pdfium.dll")
    } else if is(&o, "macos") {
        ("lib", "libpdfium.dylib")
    } else {
        ("lib", "libpdfium.so")
    }
}

/// The directories searched for a downloaded PDFium, in order.
pub open spec fn search_roots_spec() -> Seq<Seq<char>> {
    seq!["pdfium"@, "../pdfium"@, "../../pdfium"@]
}

/// The directories searched for a downloaded PDFium, in order; each holds
/// `<triple>/<dir>/<file>` as [`library_location`] gives them.
pub fn search_roots() -> (r: Vec<&'static str>)
    ensures
        r@.map_values(|s: &'static str| s@) == search_roots_spec(),
{
    let v = vec!["pdfium", "../pdfium", "../../pdfium"];
    assert(v@.map_values(|s: &'static str| s@) =~= search_roots_spec());
    v
}

} // verus!
