//! The closed set of platform subdirectories a channel can carry, used as
//! path segments and probed during subdir discovery.

use vstd::prelude::*;
use crate::text::str_eq;

verus! {

/// A platform subdirectory tag.
#[derive(Clone, Copy, PartialEq, Eq, Structural, Debug, Hash)]
pub enum Platform {
    NoArch,
    Linux32,
    Linux64,
    LinuxAarch64,
    LinuxArmV6l,
    LinuxArmV7l,
    LinuxLoongArch64,
    LinuxPpc64le,
    LinuxPpc64,
    LinuxPpc,
    LinuxS390X,
    LinuxRiscv32,
    LinuxRiscv64,
    FreeBsd32,
    FreeBsd64,
    FreeBsdArm64,
    FreeBsdPpc64le,
    FreeBsdPpc64,
    Osx64,
    OsxArm64,
    IosArm64,
    IosSimulatorArm64,
    IosSimulator64,
    AndroidAarch64,
    AndroidArmV7a,
    Android64,
    Android32,
    Win32,
    Win64,
    WinArm64,
    EmscriptenWasm32,
    EmscriptenWasm64,
    WasiWasm32,
    ZosZ,
}

/// The path segment of a platform.
pub open spec fn platform_str(p: Platform) -> Seq<char> {
    match p {
        Platform::NoArch => "noarch"@,
        Platform::Linux32 => "linux-32"@,
        Platform::Linux64 => "linux-64"@,
        Platform::LinuxAarch64 => "linux-aarch64"@,
        Platform::LinuxArmV6l => "linux-armv6l"@,
        Platform::LinuxArmV7l => "linux-armv7l"@,
        Platform::LinuxLoongArch64 => "linux-loongarch64"@,
        Platform::LinuxPpc64le => "linux-ppc64le"@,
        Platform::LinuxPpc64 => "linux-ppc64"@,
        Platform::LinuxPpc => "linux-ppc"@,
        Platform::LinuxS390X => "linux-s390x"@,
        Platform::LinuxRiscv32 => "linux-riscv32"@,
        Platform::LinuxRiscv64 => "linux-riscv64"@,
        Platform::FreeBsd32 => "freebsd-32"@,
        Platform::FreeBsd64 => "freebsd-64"@,
        Platform::FreeBsdArm64 => "freebsd-arm64"@,
        Platform::FreeBsdPpc64le => "freebsd-ppc64le"@,
        Platform::FreeBsdPpc64 => "freebsd-ppc64"@,
        Platform::Osx64 => "osx-64"@,
        Platform::OsxArm64 => "osx-arm64"@,
        Platform::IosArm64 => "ios-arm64"@,
        Platform::IosSimulatorArm64 => "iossimulator-arm64"@,
        Platform::IosSimulator64 => "iossimulator-64"@,
        Platform::AndroidAarch64 => "android-aarch64"@,
        Platform::AndroidArmV7a => "android-armv7a"@,
        Platform::Android64 => "android-64"@,
        Platform::Android32 => "android-32"@,
        Platform::Win32 => "win-32"@,
        Platform::Win64 => "win-64"@,
        Platform::WinArm64 => "win-arm64"@,
        Platform::EmscriptenWasm32 => "emscripten-wasm32"@,
        Platform::EmscriptenWasm64 => "emscripten-wasm64"@,
        Platform::WasiWasm32 => "wasi-wasm32"@,
        Platform::ZosZ => "zos-z"@,
    }
}

/// The platform a tag names, if any.
pub open spec fn spec_platform_from(s: Seq<char>) -> Option<Platform> {
    if s == "noarch"@ {
        Some(Platform::NoArch)
    } else if s == "linux-32"@ {
        Some(Platform::Linux32)
    } else if s == "linux-64"@ {
        Some(Platform::Linux64)
    } else if s == "linux-aarch64"@ {
        Some(Platform::LinuxAarch64)
    } else if s == "linux-armv6l"@ {
        Some(Platform::LinuxArmV6l)
    } else if s == "linux-armv7l"@ {
        Some(Platform::LinuxArmV7l)
    } else if s == "linux-loongarch64"@ {
        Some(Platform::LinuxLoongArch64)
    } else if s == "linux-ppc64le"@ {
        Some(Platform::LinuxPpc64le)
    } else if s == "linux-ppc64"@ {
        Some(Platform::LinuxPpc64)
    } else if s == "linux-ppc"@ {
        Some(Platform::LinuxPpc)
    } else if s == "linux-s390x"@ {
        Some(Platform::LinuxS390X)
    } else if s == "linux-riscv32"@ {
        Some(Platform::LinuxRiscv32)
    } else if s == "linux-riscv64"@ {
        Some(Platform::LinuxRiscv64)
    } else if s == "freebsd-32"@ {
        Some(Platform::FreeBsd32)
    } else if s == "freebsd-64"@ {
        Some(Platform::FreeBsd64)
    } else if s == "freebsd-arm64"@ {
        Some(Platform::FreeBsdArm64)
    } else if s == "freebsd-ppc64le"@ {
        Some(Platform::FreeBsdPpc64le)
    } else if s == "freebsd-ppc64"@ {
        Some(Platform::FreeBsdPpc64)
    } else if s == "osx-64"@ {
        Some(Platform::Osx64)
    } else if s == "osx-arm64"@ {
        Some(Platform::OsxArm64)
    } else if s == "ios-arm64"@ {
        Some(Platform::IosArm64)
    } else if s == "iossimulator-arm64"@ {
        Some(Platform::IosSimulatorArm64)
    } else if s == "iossimulator-64"@ {
        Some(Platform::IosSimulator64)
    } else if s == "android-aarch64"@ {
        Some(Platform::AndroidAarch64)
    } else if s == "android-armv7a"@ {
        Some(Platform::AndroidArmV7a)
    } else if s == "android-64"@ {
        Some(Platform::Android64)
    } else if s == "android-32"@ {
        Some(Platform::Android32)
    } else if s == "win-32"@ {
        Some(Platform::Win32)
    } else if s == "win-64"@ {
        Some(Platform::Win64)
    } else if s == "win-arm64"@ {
        Some(Platform::WinArm64)
    } else if s == "emscripten-wasm32"@ {
        Some(Platform::EmscriptenWasm32)
    } else if s == "emscripten-wasm64"@ {
        Some(Platform::EmscriptenWasm64)
    } else if s == "wasi-wasm32"@ {
        Some(Platform::WasiWasm32)
    } else if s == "zos-z"@ {
        Some(Platform::ZosZ)
    } else {
        None
    }
}

impl Platform {
    /// The tag under which this platform appears in paths.
    pub fn as_str(&self) -> (r: &'static str)
        ensures
            r@ == platform_str(*self),
    {
        match self {
            Platform::NoArch => "noarch",
            Platform::Linux32 => "linux-32",
            Platform::Linux64 => "linux-64",
            Platform::LinuxAarch64 => "linux-aarch64",
            Platform::LinuxArmV6l => "linux-armv6l",
            Platform::LinuxArmV7l => "linux-armv7l",
            Platform::LinuxLoongArch64 => "linux-loongarch64",
            Platform::LinuxPpc64le => "linux-ppc64le",
            Platform::LinuxPpc64 => "linux-ppc64",
            Platform::LinuxPpc => "linux-ppc",
            Platform::LinuxS390X => "linux-s390x",
            Platform::LinuxRiscv32 => "linux-riscv32",
            Platform::LinuxRiscv64 => "linux-riscv64",
            Platform::FreeBsd32 => "freebsd-32",
            Platform::FreeBsd64 => "freebsd-64",
            Platform::FreeBsdArm64 => "freebsd-arm64",
            Platform::FreeBsdPpc64le => "freebsd-ppc64le",
            Platform::FreeBsdPpc64 => "freebsd-ppc64",
            Platform::Osx64 => "osx-64",
            Platform::OsxArm64 => "osx-arm64",
            Platform::IosArm64 => "ios-arm64",
            Platform::IosSimulatorArm64 => "iossimulator-arm64",
            Platform::IosSimulator64 => "iossimulator-64",
            Platform::AndroidAarch64 => "android-aarch64",
            Platform::AndroidArmV7a => "android-armv7a",
            Platform::Android64 => "android-64",
            Platform::Android32 => "android-32",
            Platform::Win32 => "win-32",
            Platform::Win64 => "win-64",
            Platform::WinArm64 => "win-arm64",
            Platform::EmscriptenWasm32 => "emscripten-wasm32",
            Platform::EmscriptenWasm64 => "emscripten-wasm64",
            Platform::WasiWasm32 => "wasi-wasm32",
            Platform::ZosZ => "zos-z",
        }
    }

    /// Parses a platform tag.
    pub fn parse(s: &str) -> (r: Option<Platform>)
        ensures
            r == spec_platform_from(s@),
    {
        if str_eq(s, "noarch") {
            Some(Platform::NoArch)
        } else if str_eq(s, "linux-32") {
            Some(Platform::Linux32)
        } else if str_eq(s, "linux-64") {
            Some(Platform::Linux64)
        } else if str_eq(s, "linux-aarch64") {
            Some(Platform::LinuxAarch64)
        } else if str_eq(s, "linux-armv6l") {
            Some(Platform::LinuxArmV6l)
        } else if str_eq(s, "linux-armv7l") {
            Some(Platform::LinuxArmV7l)
        } else if str_eq(s, "linux-loongarch64") {
            Some(Platform::LinuxLoongArch64)
        } else if str_eq(s, "linux-ppc64le") {
            Some(Platform::LinuxPpc64le)
        } else if str_eq(s, "linux-ppc64") {
            Some(Platform::LinuxPpc64)
        } else if str_eq(s, "linux-ppc") {
            Some(Platform::LinuxPpc)
        } else if str_eq(s, "linux-s390x") {
            Some(Platform::LinuxS390X)
        } else if str_eq(s, "linux-riscv32") {
            Some(Platform::LinuxRiscv32)
        } else if str_eq(s, "linux-riscv64") {
            Some(Platform::LinuxRiscv64)
        } else if str_eq(s, "freebsd-32") {
            Some(Platform::FreeBsd32)
        } else if str_eq(s, "freebsd-64") {
            Some(Platform::FreeBsd64)
        } else if str_eq(s, "freebsd-arm64") {
            Some(Platform::FreeBsdArm64)
        } else if str_eq(s, "freebsd-ppc64le") {
            Some(Platform::FreeBsdPpc64le)
        } else if str_eq(s, "freebsd-ppc64") {
            Some(Platform::FreeBsdPpc64)
        } else if str_eq(s, "osx-64") {
            Some(Platform::Osx64)
        } else if str_eq(s, "osx-arm64") {
            Some(Platform::OsxArm64)
        } else if str_eq(s, "ios-arm64") {
            Some(Platform::IosArm64)
        } else if str_eq(s, "iossimulator-arm64") {
            Some(Platform::IosSimulatorArm64)
        } else if str_eq(s, "iossimulator-64") {
            Some(Platform::IosSimulator64)
        } else if str_eq(s, "android-aarch64") {
            Some(Platform::AndroidAarch64)
        } else if str_eq(s, "android-armv7a") {
            Some(Platform::AndroidArmV7a)
        } else if str_eq(s, "android-64") {
            Some(Platform::Android64)
        } else if str_eq(s, "android-32") {
            Some(Platform::Android32)
        } else if str_eq(s, "win-32") {
            Some(Platform::Win32)
        } else if str_eq(s, "win-64") {
            Some(Platform::Win64)
        } else if str_eq(s, "win-arm64") {
            Some(Platform::WinArm64)
        } else if str_eq(s, "emscripten-wasm32") {
            Some(Platform::EmscriptenWasm32)
        } else if str_eq(s, "emscripten-wasm64") {
            Some(Platform::EmscriptenWasm64)
        } else if str_eq(s, "wasi-wasm32") {
            Some(Platform::WasiWasm32)
        } else if str_eq(s, "zos-z") {
            Some(Platform::ZosZ)
        } else {
            None
        }
    }

    /// Every known platform, in a fixed order.
    pub fn all() -> (r: Vec<Platform>)
        ensures
            r@ == spec_all_platforms(),
    {
        let mut v: Vec<Platform> = Vec::new();
        v.push(Platform::NoArch);
        v.push(Platform::Linux32);
        v.push(Platform::Linux64);
        v.push(Platform::LinuxAarch64);
        v.push(Platform::LinuxArmV6l);
        v.push(Platform::LinuxArmV7l);
        v.push(Platform::LinuxLoongArch64);
        v.push(Platform::LinuxPpc64le);
        v.push(Platform::LinuxPpc64);
        v.push(Platform::LinuxPpc);
        v.push(Platform::LinuxS390X);
        v.push(Platform::LinuxRiscv32);
        v.push(Platform::LinuxRiscv64);
        v.push(Platform::FreeBsd32);
        v.push(Platform::FreeBsd64);
        v.push(Platform::FreeBsdArm64);
        v.push(Platform::FreeBsdPpc64le);
        v.push(Platform::FreeBsdPpc64);
        v.push(Platform::Osx64);
        v.push(Platform::OsxArm64);
        v.push(Platform::IosArm64);
        v.push(Platform::IosSimulatorArm64);
        v.push(Platform::IosSimulator64);
        v.push(Platform::AndroidAarch64);
        v.push(Platform::AndroidArmV7a);
        v.push(Platform::Android64);
        v.push(Platform::Android32);
        v.push(Platform::Win32);
        v.push(Platform::Win64);
        v.push(Platform::WinArm64);
        v.push(Platform::EmscriptenWasm32);
        v.push(Platform::EmscriptenWasm64);
        v.push(Platform::WasiWasm32);
        v.push(Platform::ZosZ);
        proof {
            assert(v@ =~= spec_all_platforms());
        }
        v
    }
}

/// Every known platform, in the order `Platform::all` returns them.
pub open spec fn spec_all_platforms() -> Seq<Platform> {
    seq![
        Platform::NoArch,
        Platform::Linux32,
        Platform::Linux64,
        Platform::LinuxAarch64,
        Platform::LinuxArmV6l,
        Platform::LinuxArmV7l,
        Platform::LinuxLoongArch64,
        Platform::LinuxPpc64le,
        Platform::LinuxPpc64,
        Platform::LinuxPpc,
        Platform::LinuxS390X,
        Platform::LinuxRiscv32,
        Platform::LinuxRiscv64,
        Platform::FreeBsd32,
        Platform::FreeBsd64,
        Platform::FreeBsdArm64,
        Platform::FreeBsdPpc64le,
        Platform::FreeBsdPpc64,
        Platform::Osx64,
        Platform::OsxArm64,
        Platform::IosArm64,
        Platform::IosSimulatorArm64,
        Platform::IosSimulator64,
        Platform::AndroidAarch64,
        Platform::AndroidArmV7a,
        Platform::Android64,
        Platform::Android32,
        Platform::Win32,
        Platform::Win64,
        Platform::WinArm64,
        Platform::EmscriptenWasm32,
        Platform::EmscriptenWasm64,
        Platform::WasiWasm32,
        Platform::ZosZ,
    ]
}

/// The platforms of `probed` whose probe succeeded, in order.
pub open spec fn selected_of(probed: Seq<(Platform, bool)>) -> Seq<Platform>
    decreases probed.len(),
{
    if probed.len() == 0 {
        Seq::empty()
    } else {
        let rest = selected_of(probed.drop_last());
        if probed.last().1 {
            rest.push(probed.last().0)
        } else {
            rest
        }
    }
}

/// The subdirs a run mirrors: the explicitly configured list when one is
/// given, otherwise exactly the platforms whose probe found a manifest.
pub fn select_subdirs(explicit: &Option<Vec<Platform>>, probed: &Vec<(Platform, bool)>) -> (r: Vec<
    Platform,
>)
    ensures
        match explicit {
            Some(v) => r@ == v@,
            None => r@ == selected_of(probed@),
        },
{
    match explicit {
        Some(v) => {
            let c = v.clone();
            proof {
                assert(c@ =~= v@);
            }
            c
        },
        None => {
            let mut out: Vec<Platform> = Vec::new();
            let mut i: usize = 0;
            while i < probed.len()
                invariant
                    0 <= i <= probed@.len(),
                    out@ == selected_of(probed@.take(i as int)),
                decreases probed@.len() - i,
            {
                proof {
                    assert(probed@.take(i as int + 1).drop_last() =~= probed@.take(i as int));
                    assert(probed@.take(i as int + 1).last() == probed@[i as int]);
                }
                if probed[i].1 {
                    out.push(probed[i].0);
                }
                i += 1;
            }
            proof {
                assert(probed@.take(probed@.len() as int) =~= probed@);
            }
            out
        },
    }
}

} // verus!
