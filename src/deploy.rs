use vstd::prelude::*;
use vstd::string::StringExecFns;

verus! {

/// A board that the tooling can build for and deploy to.
#[derive(Clone, Copy, Debug, PartialEq, Eq, Structural)]
pub enum Platform {
    AppleSilicon,
    Beaglebone,
    Meerkat,
    RaspberryPi,
}

impl Platform {
    /// The target triple that binaries for this platform are compiled for.
    pub fn triple(self) -> (r: &'static str)
        ensures
            self == Platform::AppleSilicon ==> r@ == "aarch64-apple-darwin"@,
            self == Platform::Beaglebone ==> r@ == "armv7-unknown-linux-musleabihf"@,
            self == Platform::Meerkat ==> r@ == "x86_64-unknown-linux-gnu"@,
            self == Platform::RaspberryPi ==> r@ == "aarch64-unknown-linux-musl"@,
    {
        match self {
            Platform::AppleSilicon => "aarch64-apple-darwin",
            Platform::Beaglebone => "armv7-unknown-linux-musleabihf",
            Platform::Meerkat => "x86_64-unknown-linux-gnu",
            Platform::RaspberryPi => "aarch64-unknown-linux-musl",
        }
    }

    /// The factory user name and password of this platform.
    pub fn default_login(self) -> (r: (&'static str, &'static str))
        ensures
            self == Platform::AppleSilicon ==> r.0@ == "none"@ && r.1@ == "none"@,
            self == Platform::Beaglebone ==> r.0@ == "debian"@ && r.1@ == "temppwd"@,
            self == Platform::Meerkat ==> r.0@ == "yjsp"@ && r.1@ == "yjspfullscale"@,
            self == Platform::RaspberryPi ==> r.0@ == "pi"@ && r.1@ == "p@ssw0rd"@,
    {
        match self {
            Platform::AppleSilicon => ("none", "none"),
            Platform::Beaglebone => ("debian", "temppwd"),
            Platform::Meerkat => ("yjsp", "yjspfullscale"),
            Platform::RaspberryPi => ("pi", "p@ssw0rd"),
        }
    }
}

/// A source repository of the system.
#[derive(Clone, Copy, Debug, PartialEq, Eq, Structural)]
pub enum Repository {
    Ahrs,
    Flight,
    Gui,
    Sam,
    Servo,
}

impl Repository {
    /// The URL that the repository is cloned from.
    pub fn remote(self) -> (r: &'static str)
        ensures
            self == Repository::Ahrs ==> r@ == "https://github.com/gt-space/ahrs"@,
            self == Repository::Flight ==> r@ == "https://github.com/gt-space/flight"@,
            self == Repository::Gui ==> r@ == "https://github.com/gt-space/gui"@,
            self == Repository::Sam ==> r@ == "https://github.com/gt-space/sam"@,
            self == Repository::Servo ==> r@ == "https://github.com/gt-space/servo"@,
    {
        match self {
            Repository::Ahrs => "https://github.com/gt-space/ahrs",
            Repository::Flight => "https://github.com/gt-space/flight",
            Repository::Gui => "https://github.com/gt-space/gui",
            Repository::Sam => "https://github.com/gt-space/sam",
            Repository::Servo => "https://github.com/gt-space/servo",
        }
    }
}

/// The server's working directory.
#[derive(Clone, Debug)]
pub struct Cache {
    pub path: String,
}

impl Cache {
    /// The working directory under the given home directory: `<home>/.servo`.
    pub fn in_home(home: &String) -> (r: Cache)
        ensures
            r.path@ == home@ + "/.servo"@,
    {
        proof {
            reveal_strlit("/.servo");
        }
        let mut path = home.clone();
        path.append("/.servo");
        Cache { path }
    }
}

} // verus!
