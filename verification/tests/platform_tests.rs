use engine_setup::platform::{get_uv_archive_info, uv_download_url, uv_version, world_engine_zip_url, Arch, Os};

#[test]
fn archive_info_windows_x86_64() {
    let (archive, binary) = get_uv_archive_info(Os::Windows, Arch::X86_64);
    assert_eq!(archive, "uv-x86_64-pc-windows-msvc.zip");
    assert_eq!(binary, "uv.exe");
}

#[test]
fn archive_info_windows_aarch64() {
    let (archive, binary) = get_uv_archive_info(Os::Windows, Arch::Aarch64);
    assert_eq!(archive, "uv-aarch64-pc-windows-msvc.zip");
    assert_eq!(binary, "uv.exe");
}

#[test]
fn archive_info_macos() {
    let (archive, binary) = get_uv_archive_info(Os::Macos, Arch::X86_64);
    assert_eq!(archive, "uv-x86_64-apple-darwin.tar.gz");
    assert_eq!(binary, "uv");
    let (archive, binary) = get_uv_archive_info(Os::Macos, Arch::Aarch64);
    assert_eq!(archive, "uv-aarch64-apple-darwin.tar.gz");
    assert_eq!(binary, "uv");
}

#[test]
fn archive_info_linux() {
    let (archive, binary) = get_uv_archive_info(Os::Linux, Arch::X86_64);
    assert_eq!(archive, "uv-x86_64-unknown-linux-gnu.tar.gz");
    assert_eq!(binary, "uv");
    let (archive, binary) = get_uv_archive_info(Os::Linux, Arch::Aarch64);
    assert_eq!(archive, "uv-aarch64-unknown-linux-gnu.tar.gz");
    assert_eq!(binary, "uv");
}

#[test]
fn archive_info_every_pair_nonempty_with_platform_extension() {
    for os in [Os::Windows, Os::Macos, Os::Linux] {
        for arch in [Arch::X86_64, Arch::Aarch64] {
            let (archive, binary) = get_uv_archive_info(os, arch);
            assert!(!archive.is_empty());
            assert!(!binary.is_empty());
            if os == Os::Windows {
                assert!(archive.ends_with(".zip"));
            } else {
                assert!(archive.ends_with(".tar.gz"));
            }
        }
    }
}

#[test]
fn download_url_interpolates_version_and_archive() {
    assert_eq!(uv_version(), "0.9.26");
    let url = uv_download_url(Os::Linux, Arch::X86_64);
    assert_eq!(
        url,
        "https://github.com/astral-sh/uv/releases/download/0.9.26/uv-x86_64-unknown-linux-gnu.tar.gz"
    );
}

#[test]
fn repo_zip_url_is_fixed_branch_snapshot() {
    assert_eq!(
        world_engine_zip_url(),
        "https://github.com/Wayfarer-Labs/world_engine/archive/refs/heads/biome-stable.zip"
    );
}
