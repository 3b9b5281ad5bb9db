//! What is installed where on each supported platform, and which targets an
//! update session checks.

use vstd::prelude::*;
use crate::paths::owned;
use crate::archive::Layout;
use crate::swap::StagedBundle;
use crate::release::GitHubReleaseChecker;

verus! {

/// A supported operating system and architecture.
#[derive(PartialEq, Eq, Structural, Clone, Copy, Debug)]
pub enum Platform {
    WindowsX86_64,
    WindowsI686,
    LinuxX86_64,
    LinuxI686,
    LinuxArmhf,
    LinuxAarch64,
    MacosX86_64,
}

pub open spec fn is_macos(p: Platform) -> bool {
    p == Platform::MacosX86_64
}

/// `s` with every `+` written as `%2B`.
pub open spec fn escape_plus(s: Seq<char>) -> Seq<char>
    decreases s.len(),
{
    if s.len() == 0 {
        s
    } else {
        escape_plus(s.drop_last()) + if s.last() == '+' {
            "%2B"@
        } else {
            seq![s.last()]
        }
    }
}

pub open spec fn cef_download_url_spec(version: Seq<char>) -> Seq<char> {
    escape_plus("https://cef-builds.spotifycdn.com/"@ + version + ".tar.bz2"@)
}

/// `s` with every `+` written as `%2B`.
pub fn escape_plus_exec(s: &str) -> (r: String)
    ensures
        r@ == escape_plus(s@),
{
    let n = s.unicode_len();
    let mut r = String::new();
    let mut i: usize = 0;
    while i < n
        invariant
            n == s@.len(),
            i <= n,
            r@ == escape_plus(s@.subrange(0, i as int)),
        decreases n - i,
    {
        let ghost before = s@.subrange(0, i as int);
        let ghost after = s@.subrange(0, i + 1);
        assert(after.drop_last() =~= before);
        if s.get_char(i) == '+' {
            r.append("%2B");
            proof {
                reveal_strlit("%2B");
            }
        } else {
            let one = s.substring_char(i, i + 1);
            assert(one@ =~= seq![after.last()]);
            r.append(one);
        }
        i = i + 1;
    }
    assert(s@.subrange(0, n as int) =~= s@);
    r
}

/// Where the browser runtime of `version` is downloaded from.
pub fn cef_download_url(version: &str) -> (r: String)
    ensures
        r@ == cef_download_url_spec(version@),
{
    let mut u = owned("https://cef-builds.spotifycdn.com/");
    u.append(version);
    u.append(".tar.bz2");
    escape_plus_exec(u.as_str())
}

/// The runtime build name of each platform.
pub open spec fn cef_arch_spec(p: Platform) -> Seq<char> {
    match p {
        Platform::WindowsX86_64 => "windows64"@,
        Platform::WindowsI686 => "windows32"@,
        Platform::LinuxX86_64 => "linux64"@,
        Platform::LinuxI686 => "linux32"@,
        Platform::LinuxArmhf => "linuxarm"@,
        Platform::LinuxAarch64 => "linuxarm64"@,
        Platform::MacosX86_64 => "macosx64"@,
    }
}

/// The runtime release of each platform.
pub open spec fn cef_release_spec(p: Platform) -> Seq<char> {
    match p {
        Platform::LinuxI686 => "101.0.18+g367b4a0+chromium-101.0.4951.67"@,
        _ => "134.3.8+gfe66d80+chromium-134.0.6998.166"@,
    }
}

/// Where the loader plugin's library lives on each platform.
pub open spec fn loader_path_spec(p: Platform) -> Seq<char> {
    match p {
        Platform::WindowsX86_64 => "plugins/classicube_cef_loader_windows_x86_64.dll"@,
        Platform::WindowsI686 => "plugins/classicube_cef_loader_windows_i686.dll"@,
        Platform::LinuxX86_64 => "plugins/classicube_cef_loader_linux_x86_64.so"@,
        Platform::LinuxI686 => "plugins/classicube_cef_loader_linux_i686.so"@,
        Platform::LinuxArmhf => "plugins/classicube_cef_loader_linux_armhf.so"@,
        Platform::LinuxAarch64 => "plugins/classicube_cef_loader_linux_aarch64.so"@,
        Platform::MacosX86_64 => "plugins/classicube_cef_loader_macos_x86_64.dylib"@,
    }
}

/// Where the browser plugin's library lives on each platform.
pub open spec fn plugin_path_spec(p: Platform) -> Seq<char> {
    match p {
        Platform::WindowsX86_64 => "cef/classicube_cef_windows_x86_64.dll"@,
        Platform::WindowsI686 => "cef/classicube_cef_windows_i686.dll"@,
        Platform::LinuxX86_64 => "./cef/classicube_cef_linux_x86_64.so"@,
        Platform::LinuxI686 => "./cef/classicube_cef_linux_i686.so"@,
        Platform::LinuxArmhf => "./cef/classicube_cef_linux_armhf.so"@,
        Platform::LinuxAarch64 => "./cef/classicube_cef_linux_aarch64.so"@,
        Platform::MacosX86_64 => "./cef/classicube_cef_macos_x86_64.dylib"@,
    }
}

/// Where the browser's helper executable lives on each platform.
pub open spec fn exe_path_spec(p: Platform) -> Seq<char> {
    match p {
        Platform::WindowsX86_64 => "cef/cef-windows-x86_64.exe"@,
        Platform::WindowsI686 => "cef/cef-windows-i686.exe"@,
        Platform::LinuxX86_64 => "cef/cef-linux-x86_64"@,
        Platform::LinuxI686 => "cef/cef-linux-i686"@,
        Platform::LinuxArmhf => "cef/cef-linux-armhf"@,
        Platform::LinuxAarch64 => "cef/cef-linux-aarch64"@,
        Platform::MacosX86_64 => "cef/cef-macos-x86_64"@,
    }
}

impl Platform {
    /// The archive layout of the browser runtime on this platform.
    pub fn layout(self) -> (r: Layout)
        ensures
            r == if is_macos(self) {
                Layout::Framework
            } else {
                Layout::Flat
            },
    {
        match self {
            Platform::MacosX86_64 => Layout::Framework,
            _ => Layout::Flat,
        }
    }

    /// The runtime build name used in download names.
    pub fn cef_arch(self) -> (r: &'static str)
        ensures
            r@ == cef_arch_spec(self),
    {
        match self {
            Platform::WindowsX86_64 => "windows64",
            Platform::WindowsI686 => "windows32",
            Platform::LinuxX86_64 => "linux64",
            Platform::LinuxI686 => "linux32",
            Platform::LinuxArmhf => "linuxarm",
            Platform::LinuxAarch64 => "linuxarm64",
            Platform::MacosX86_64 => "macosx64",
        }
    }

    /// The runtime release this platform installs; 32-bit Linux builds
    /// stopped at an older release.
    pub fn cef_release(self) -> (r: &'static str)
        ensures
            r@ == cef_release_spec(self),
    {
        match self {
            Platform::LinuxI686 => "101.0.18+g367b4a0+chromium-101.0.4951.67",
            _ => "134.3.8+gfe66d80+chromium-134.0.6998.166",
        }
    }

    /// The runtime bundle: its live and staged directories and its markers.
    pub fn cef_bundle(self) -> (r: StagedBundle)
        ensures
            r.live@ == if is_macos(self) {
                "cef/Chromium Embedded Framework.framework"@
            } else {
                "cef/cef_binary"@
            },
            r.staged@ == r.live@ + "-new"@,
            r.marker@ == "cef/cef_binary.txt"@,
            r.marker_staged@ == "cef/cef_binary.txt-new"@,
            r@.wf(),
    {
        proof {
            reveal_strlit("cef/Chromium Embedded Framework.framework");
            reveal_strlit("cef/cef_binary");
            reveal_strlit("-new");
            reveal_strlit("cef/cef_binary.txt");
            reveal_strlit("cef/cef_binary.txt-new");
        }
        let live = if is_macos_exec(self) {
            owned("cef/Chromium Embedded Framework.framework")
        } else {
            owned("cef/cef_binary")
        };
        let mut staged = live.clone();
        staged.append("-new");
        let r = StagedBundle {
            live,
            staged,
            marker: owned("cef/cef_binary.txt"),
            marker_staged: owned("cef/cef_binary.txt-new"),
        };
        proof {
            let b = r@;
            if is_macos(self) {
                assert(b.live.len() != b.marker.len());
                assert(b.live.len() != b.marker_staged.len());
                assert(b.staged.len() != b.marker.len());
                assert(b.staged.len() != b.marker_staged.len());
            } else {
                assert(b.staged[14] != b.marker[14]);
                assert(b.live.len() != b.marker.len());
                assert(b.live.len() != b.marker_staged.len());
                assert(b.staged.len() != b.marker_staged.len());
            }
            assert(b.live.len() != b.staged.len());
            assert(b.marker.len() != b.marker_staged.len());
        }
        r
    }

    /// The loader plugin's own library.
    pub fn loader_path(self) -> (r: &'static str)
        ensures
            r@ == loader_path_spec(self),
    {
        match self {
            Platform::WindowsX86_64 => "plugins/classicube_cef_loader_windows_x86_64.dll",
            Platform::WindowsI686 => "plugins/classicube_cef_loader_windows_i686.dll",
            Platform::LinuxX86_64 => "plugins/classicube_cef_loader_linux_x86_64.so",
            Platform::LinuxI686 => "plugins/classicube_cef_loader_linux_i686.so",
            Platform::LinuxArmhf => "plugins/classicube_cef_loader_linux_armhf.so",
            Platform::LinuxAarch64 => "plugins/classicube_cef_loader_linux_aarch64.so",
            Platform::MacosX86_64 => "plugins/classicube_cef_loader_macos_x86_64.dylib",
        }
    }

    /// The browser plugin's library, loaded by the loader.
    pub fn plugin_path(self) -> (r: &'static str)
        ensures
            r@ == plugin_path_spec(self),
    {
        match self {
            Platform::WindowsX86_64 => "cef/classicube_cef_windows_x86_64.dll",
            Platform::WindowsI686 => "cef/classicube_cef_windows_i686.dll",
            Platform::LinuxX86_64 => "./cef/classicube_cef_linux_x86_64.so",
            Platform::LinuxI686 => "./cef/classicube_cef_linux_i686.so",
            Platform::LinuxArmhf => "./cef/classicube_cef_linux_armhf.so",
            Platform::LinuxAarch64 => "./cef/classicube_cef_linux_aarch64.so",
            Platform::MacosX86_64 => "./cef/classicube_cef_macos_x86_64.dylib",
        }
    }

    /// The browser's helper executable.
    pub fn exe_path(self) -> (r: &'static str)
        ensures
            r@ == exe_path_spec(self),
    {
        match self {
            Platform::WindowsX86_64 => "cef/cef-windows-x86_64.exe",
            Platform::WindowsI686 => "cef/cef-windows-i686.exe",
            Platform::LinuxX86_64 => "cef/cef-linux-x86_64",
            Platform::LinuxI686 => "cef/cef-linux-i686",
            Platform::LinuxArmhf => "cef/cef-linux-armhf",
            Platform::LinuxAarch64 => "cef/cef-linux-aarch64",
            Platform::MacosX86_64 => "cef/cef-macos-x86_64",
        }
    }
}

/// The runtime version string recorded in its marker:
/// `cef_binary_<release>_<arch>_minimal`.
pub fn cef_version(release: &str, arch: &str) -> (r: String)
    ensures
        r@ == "cef_binary_"@ + release@ + "_"@ + arch@ + "_minimal"@,
{
    let mut r = owned("cef_binary_");
    r.append(release);
    r.append("_");
    r.append(arch);
    r.append("_minimal");
    r
}

/// The release-published targets of an update session, in order: the loader
/// plugin at `loader`, then the browser plugin at `plugin` with its helper
/// executable at `exe`.
pub fn release_targets(loader: &str, plugin: &str, exe: &str) -> (r: Vec<GitHubReleaseChecker>)
    ensures
        r@.len() == 2,
        r@[0].name@ == "Cef Loader"@,
        r@[0].owner@ == "SpiralP"@,
        r@[0].repo@ == "classicube-cef-loader-plugin"@,
        r@[0].asset_paths@.len() == 1,
        r@[0].asset_paths@[0]@ == loader@,
        r@[1].name@ == "Cef"@,
        r@[1].owner@ == "SpiralP"@,
        r@[1].repo@ == "classicube-cef-plugin"@,
        r@[1].asset_paths@.len() == 2,
        r@[1].asset_paths@[0]@ == plugin@,
        r@[1].asset_paths@[1]@ == exe@,
{
    let loader = GitHubReleaseChecker::new(
        "Cef Loader",
        "SpiralP",
        "classicube-cef-loader-plugin",
        vec![owned(loader)],
    );
    let plugin = GitHubReleaseChecker::new(
        "Cef",
        "SpiralP",
        "classicube-cef-plugin",
        vec![owned(plugin), owned(exe)],
    );
    vec![loader, plugin]
}

fn is_macos_exec(p: Platform) -> (r: bool)
    ensures
        r == is_macos(p),
{
    p == Platform::MacosX86_64
}

} // verus!
