//! Platform resolution for the package-management tool: maps an (operating
//! system, CPU architecture) pair to the release archive to download and the
//! binary name to look for inside it, and builds the download URLs.

use vstd::prelude::*;

verus! {

/// Operating systems the tool is released for.
#[derive(Clone, Copy, PartialEq, Eq, Structural, Debug)]
pub enum Os {
    Windows,
    Macos,
    Linux,
}

/// CPU architectures the tool is released for.
#[derive(Clone, Copy, PartialEq, Eq, Structural, Debug)]
pub enum Arch {
    X86_64,
    Aarch64,
}

/// True when `s` ends with `suffix`.
pub open spec fn ends_with_chars(s: Seq<char>, suffix: Seq<char>) -> bool {
    s.len() >= suffix.len() && s.subrange(s.len() - suffix.len(), s.len() as int) == suffix
}

/// The archive filename published for this (OS, architecture) pair.
pub open spec fn spec_archive_name(os: Os, arch: Arch) -> Seq<char> {
    match (os, arch) {
        (Os::Windows, Arch::X86_64) => "uv-x86_64-pc-windows-msvc.zip"@,
        (Os::Windows, Arch::Aarch64) => "uv-aarch64-pc-windows-msvc.zip"@,
        (Os::Macos, Arch::X86_64) => "uv-x86_64-apple-darwin.tar.gz"@,
        (Os::Macos, Arch::Aarch64) => "uv-aarch64-apple-darwin.tar.gz"@,
        (Os::Linux, Arch::X86_64) => "uv-x86_64-unknown-linux-gnu.tar.gz"@,
        (Os::Linux, Arch::Aarch64) => "uv-aarch64-unknown-linux-gnu.tar.gz"@,
    }
}

/// The name of the tool binary inside the archive for this OS.
pub open spec fn spec_binary_name(os: Os) -> Seq<char> {
    if os == Os::Windows {
        "uv.exe"@
    } else {
        "uv"@
    }
}

/// Archive filename and binary name for the package-management tool release,
/// exhaustive over the supported (OS, architecture) pairs.
pub fn get_uv_archive_info(os: Os, arch: Arch) -> (r: (&'static str, &'static str))
    ensures
        r.0@ == spec_archive_name(os, arch),
        r.1@ == spec_binary_name(os),
{
    match (os, arch) {
        (Os::Windows, Arch::X86_64) => ("uv-x86_64-pc-windows-msvc.zip", "uv.exe"),
        (Os::Windows, Arch::Aarch64) => ("uv-aarch64-pc-windows-msvc.zip", "uv.exe"),
        (Os::Macos, Arch::X86_64) => ("uv-x86_64-apple-darwin.tar.gz", "uv"),
        (Os::Macos, Arch::Aarch64) => ("uv-aarch64-apple-darwin.tar.gz", "uv"),
        (Os::Linux, Arch::X86_64) => ("uv-x86_64-unknown-linux-gnu.tar.gz", "uv"),
        (Os::Linux, Arch::Aarch64) => ("uv-aarch64-unknown-linux-gnu.tar.gz", "uv"),
    }
}

/// Every supported platform resolves to a non-empty archive filename with the
/// extension of that platform's archive encoding: `.zip` on Windows, `.tar.gz`
/// elsewhere.
pub proof fn lemma_archive_name_well_formed(os: Os, arch: Arch)
    ensures
        spec_archive_name(os, arch).len() > 0,
        os == Os::Windows ==> ends_with_chars(spec_archive_name(os, arch), ".zip"@),
        os != Os::Windows ==> ends_with_chars(spec_archive_name(os, arch), ".tar.gz"@),
        spec_binary_name(os).len() > 0,
{
    reveal_strlit("uv-x86_64-pc-windows-msvc.zip");
    reveal_strlit("uv-aarch64-pc-windows-msvc.zip");
    reveal_strlit("uv-x86_64-apple-darwin.tar.gz");
    reveal_strlit("uv-aarch64-apple-darwin.tar.gz");
    reveal_strlit("uv-x86_64-unknown-linux-gnu.tar.gz");
    reveal_strlit("uv-aarch64-unknown-linux-gnu.tar.gz");
    reveal_strlit(".zip");
    reveal_strlit(".tar.gz");
    reveal_strlit("uv.exe");
    reveal_strlit("uv");
    match (os, arch) {
        (Os::Windows, Arch::X86_64) => {
            assert(ends_with_chars(spec_archive_name(os, arch), ".zip"@)) by {
                assert(spec_archive_name(os, arch).subrange(25, 29) =~= ".zip"@);
            }
        },
        (Os::Windows, Arch::Aarch64) => {
            assert(ends_with_chars(spec_archive_name(os, arch), ".zip"@)) by {
                assert(spec_archive_name(os, arch).subrange(26, 30) =~= ".zip"@);
            }
        },
        (Os::Macos, Arch::X86_64) => {
            assert(ends_with_chars(spec_archive_name(os, arch), ".tar.gz"@)) by {
                assert(spec_archive_name(os, arch).subrange(22, 29) =~= ".tar.gz"@);
            }
        },
        (Os::Macos, Arch::Aarch64) => {
            assert(ends_with_chars(spec_archive_name(os, arch), ".tar.gz"@)) by {
                assert(spec_archive_name(os, arch).subrange(23, 30) =~= ".tar.gz"@);
            }
        },
        (Os::Linux, Arch::X86_64) => {
            assert(ends_with_chars(spec_archive_name(os, arch), ".tar.gz"@)) by {
                assert(spec_archive_name(os, arch).subrange(27, 34) =~= ".tar.gz"@);
            }
        },
        (Os::Linux, Arch::Aarch64) => {
            assert(ends_with_chars(spec_archive_name(os, arch), ".tar.gz"@)) by {
                assert(spec_archive_name(os, arch).subrange(28, 35) =~= ".tar.gz"@);
            }
        },
    }
}

/// The pinned release version of the package-management tool.
pub fn uv_version() -> (r: &'static str)
    ensures
        r@ == "0.9.26"@,
{
    "0.9.26"
}

/// The branch-archive URL for the engine repository snapshot.
pub fn world_engine_zip_url() -> (r: &'static str)
    ensures
        r@ == "https://github.com/Wayfarer-Labs/world_engine/archive/refs/heads/biome-stable.zip"@,
{
    "https://github.com/Wayfarer-Labs/world_engine/archive/refs/heads/biome-stable.zip"
}

/// Release-asset URL for the tool archive: the fixed template with the pinned
/// version and the platform's archive filename interpolated.
pub fn uv_download_url(os: Os, arch: Arch) -> (r: String)
    ensures
        r@ == "https://github.com/astral-sh/uv/releases/download/"@ + "0.9.26"@ + "/"@
            + spec_archive_name(os, arch),
{
    let (archive_name, _binary_name) = get_uv_archive_info(os, arch);
    let mut url = String::from_str("https://github.com/astral-sh/uv/releases/download/");
    url.append(uv_version());
    url.append("/");
    url.append(archive_name);
    url
}

} // verus!
