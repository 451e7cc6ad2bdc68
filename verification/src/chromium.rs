//! Finding, downloading and launching a Chromium.

use vstd::prelude::*;
use crate::digits::{
    decimal, decimal_text, hex_bytes, hex_bytes_text, lemma_decimal_injective,
    lemma_hex_bytes_are_lower, lemma_hex_bytes_injective,
};
use crate::json::{
    array_in, field, field_in, find_with, first_with, get_in, items_in, law_first_item_is_found,
    string_field, text_field, text_in, Json, JsonView,
};
use crate::text::{
    ascii_lower_text, chars_of, find_chars, lemma_occurs_between, occurs, occurs_at, same,
    same_ignoring_ascii_case, trim_from, trimmed,
};

verus! {

/// The build that is downloaded where no Chromium is there. It is fixed, so that the
/// same browser is had every time; where to get it and its digest are in the list of
/// known good versions.
pub const PINNED_CHROMIUM_VERSION: &'static str = "153.0.8010.47";

/// Where the list of known good versions is.
pub const KNOWN_GOOD_VERSIONS_URL: &'static str =
    "https://googlechromelabs.github.io/chrome-for-testing/known-good-versions-with-downloads.json";

// ---------------------------------------------------------------------------
// Which Chromium

/// Which Chromium to launch.
#[derive(Clone, Copy, Debug, PartialEq, Eq, Structural)]
pub enum ChromiumChoice {
    /// The one in the settings.
    Configured,
    /// The one that the environment names.
    Environment,
    /// The installed one at that place in the list of candidates.
    Installed { candidate: usize },
    /// The pinned build, downloaded where it is not there yet.
    Pinned,
}

/// Where an installed Chromium is looked for, in this order.
pub fn installed_candidates() -> (r: [&'static str; 3])
    ensures
        r@[0]@ == "C:\\Program Files\\Google\\Chrome\\Application\\chrome.exe"@,
        r@[1]@ == "C:\\Program Files (x86)\\Google\\Chrome\\Application\\chrome.exe"@,
        r@[2]@ == "C:\\Program Files\\Microsoft\\Edge\\Application\\msedge.exe"@,
{
    [
        "C:\\Program Files\\Google\\Chrome\\Application\\chrome.exe",
        "C:\\Program Files (x86)\\Google\\Chrome\\Application\\chrome.exe",
        "C:\\Program Files\\Microsoft\\Edge\\Application\\msedge.exe",
    ]
}

/// Which Chromium to launch: the one in the settings, else the one that the
/// environment names, else the first candidate that exists, else the pinned one.
pub fn choose_chromium(configured: bool, environment: bool, exists: [bool; 3]) -> (r: ChromiumChoice)
    ensures
        r == (if configured {
            ChromiumChoice::Configured
        } else if environment {
            ChromiumChoice::Environment
        } else if exists@[0] {
            ChromiumChoice::Installed { candidate: 0 }
        } else if exists@[1] {
            ChromiumChoice::Installed { candidate: 1 }
        } else if exists@[2] {
            ChromiumChoice::Installed { candidate: 2 }
        } else {
            ChromiumChoice::Pinned
        }),
{
    if configured {
        ChromiumChoice::Configured
    } else if environment {
        ChromiumChoice::Environment
    } else if exists[0] {
        ChromiumChoice::Installed { candidate: 0 }
    } else if exists[1] {
        ChromiumChoice::Installed { candidate: 1 }
    } else if exists[2] {
        ChromiumChoice::Installed { candidate: 2 }
    } else {
        ChromiumChoice::Pinned
    }
}

/// What the pinned build is called on a platform: in the list of versions, in its
/// archive, and below that.
#[derive(Clone, Copy, Debug)]
pub struct ChromiumPlatform {
    pub key: &'static str,
    pub archive_dir: &'static str,
    pub binary_rel: &'static str,
}

/// The model of a platform's names.
pub struct PlatformView {
    pub key: Seq<char>,
    pub archive_dir: Seq<char>,
    pub binary_rel: Seq<char>,
}

impl View for ChromiumPlatform {
    type V = PlatformView;

    open spec fn view(&self) -> PlatformView {
        PlatformView {
            key: self.key@,
            archive_dir: self.archive_dir@,
            binary_rel: self.binary_rel@,
        }
    }
}

/// The names on the platform of that operating system and processor architecture.
pub open spec fn platform_names(os: Seq<char>, arch: Seq<char>) -> Option<PlatformView> {
    if os == "windows"@ {
        Some(
            PlatformView {
                key: "win64"@,
                archive_dir: "chrome-win64"@,
                binary_rel: "chrome.exe"@,
            },
        )
    } else if os == "macos"@ && arch == "aarch64"@ {
        Some(
            PlatformView {
                key: "mac-arm64"@,
                archive_dir: "chrome-mac-arm64"@,
                binary_rel:
                    "Google Chrome for Testing.app/Contents/MacOS/Google Chrome for Testing"@,
            },
        )
    } else if os == "macos"@ {
        Some(
            PlatformView {
                key: "mac-x64"@,
                archive_dir: "chrome-mac-x64"@,
                binary_rel:
                    "Google Chrome for Testing.app/Contents/MacOS/Google Chrome for Testing"@,
            },
        )
    } else if os == "linux"@ {
        Some(
            PlatformView {
                key: "linux64"@,
                archive_dir: "chrome-linux64"@,
                binary_rel: "chrome"@,
            },
        )
    } else {
        None
    }
}

/// The names on the platform of that operating system and processor architecture.
pub fn platform_for(os: &str, arch: &str) -> (r: Result<ChromiumPlatform, String>)
    ensures
        match platform_names(os@, arch@) {
            Some(names) => r matches Ok(platform) && platform@ == names,
            None => r matches Err(error) && error@
                == "automatic Chromium provisioning is not supported on this platform"@,
        },
{
    if same(os, "windows") {
        Ok(
            ChromiumPlatform {
                key: "win64",
                archive_dir: "chrome-win64",
                binary_rel: "chrome.exe",
            },
        )
    } else if same(os, "macos") {
        if same(arch, "aarch64") {
            Ok(
                ChromiumPlatform {
                    key: "mac-arm64",
                    archive_dir: "chrome-mac-arm64",
                    binary_rel:
                        "Google Chrome for Testing.app/Contents/MacOS/Google Chrome for Testing",
                },
            )
        } else {
            Ok(
                ChromiumPlatform {
                    key: "mac-x64",
                    archive_dir: "chrome-mac-x64",
                    binary_rel:
                        "Google Chrome for Testing.app/Contents/MacOS/Google Chrome for Testing",
                },
            )
        }
    } else if same(os, "linux") {
        Ok(
            ChromiumPlatform {
                key: "linux64",
                archive_dir: "chrome-linux64",
                binary_rel: "chrome",
            },
        )
    } else {
        Err("automatic Chromium provisioning is not supported on this platform".to_owned())
    }
}

// ---------------------------------------------------------------------------
// The list of versions

/// Where the pinned build for a platform is and its digest, by the list of versions;
/// else what is missing in the list.
pub open spec fn download_in(versions: JsonView, platform: Seq<char>) -> Result<
    (Seq<char>, Seq<char>),
    Seq<char>,
> {
    match items_in(field(versions, "versions"@)) {
        None => Err("Chrome for Testing versions response has no `versions` array"@),
        Some(list) => match first_with(list, "version"@, PINNED_CHROMIUM_VERSION@) {
            None => Err(
                "Chrome for Testing "@ + PINNED_CHROMIUM_VERSION@ + " is not available"@,
            ),
            Some(version) => match items_in(field_in(field(version, "downloads"@), "chrome"@)) {
                None => Err("Chrome for Testing version has no `chrome` downloads"@),
                Some(builds) => match first_with(builds, "platform"@, platform) {
                    None => Err(
                        "Chrome for Testing has no "@ + platform + " build for "@
                            + PINNED_CHROMIUM_VERSION@,
                    ),
                    Some(build) => match (text_field(build, "url"@), text_field(build, "sha256"@)) {
                        (None, _) => Err("Chrome for Testing download has no `url`"@),
                        (_, None) => Err("Chrome for Testing download has no `sha256`"@),
                        (Some(url), Some(digest)) => Ok((url, digest)),
                    },
                },
            },
        },
    }
}

/// Where the pinned build for a platform is and its digest, by the list of versions.
pub fn select_download(versions: &Json, platform_key: &str) -> (r: Result<(String, String), String>)
    ensures
        match download_in(versions.deep_view(), platform_key@) {
            Ok((url, digest)) => r matches Ok(found) && found.0@ == url && found.1@ == digest,
            Err(text) => r matches Err(error) && error@ == text,
        },
{
    let list = match array_in(versions.get("versions")) {
        Some(list) => list,
        None => {
            return Err(
                "Chrome for Testing versions response has no `versions` array".to_owned(),
            );
        },
    };
    let version = match find_with(list, "version", PINNED_CHROMIUM_VERSION) {
        Some(version) => version,
        None => {
            let mut error = "Chrome for Testing ".to_owned();
            error.append(PINNED_CHROMIUM_VERSION);
            error.append(" is not available");
            return Err(error);
        },
    };
    let builds = match array_in(get_in(version.get("downloads"), "chrome")) {
        Some(builds) => builds,
        None => {
            return Err("Chrome for Testing version has no `chrome` downloads".to_owned());
        },
    };
    let build = match find_with(builds, "platform", platform_key) {
        Some(build) => build,
        None => {
            let mut error = "Chrome for Testing has no ".to_owned();
            error.append(platform_key);
            error.append(" build for ");
            error.append(PINNED_CHROMIUM_VERSION);
            return Err(error);
        },
    };
    match string_field(build, "url") {
        Some(url) => match string_field(build, "sha256") {
            Some(digest) => Ok((url, digest)),
            None => Err("Chrome for Testing download has no `sha256`".to_owned()),
        },
        None => Err("Chrome for Testing download has no `url`".to_owned()),
    }
}

// ---------------------------------------------------------------------------
// The digest

/// The SHA-256 digest of bytes.
pub uninterp spec fn sha256(bytes: Seq<u8>) -> Seq<u8>;

/// `sha2::Sha256` over all the bytes at once: their digest, thirty-two bytes, which is
/// a function of the bytes alone and goes by the name `sha256`.
#[verifier::external_body]
fn sha256_digest(bytes: &[u8]) -> (r: Vec<u8>)
    ensures
        r@ == sha256(bytes@),
        r@.len() == 32,
{
    let mut hasher = <sha2::Sha256 as sha2::Digest>::new();
    sha2::Digest::update(&mut hasher, bytes);
    sha2::Digest::finalize(hasher).to_vec()
}

/// Whether a digest is the one that is written in hexadecimal digits of either case.
pub open spec fn digest_is(digest: Seq<u8>, expected: Seq<char>) -> bool {
    ascii_lower_text(hex_bytes(digest)) == ascii_lower_text(expected)
}

/// What is said of an archive whose digest is another than expected.
pub open spec fn mismatch_text(url: Seq<char>, expected: Seq<char>, digest: Seq<u8>) -> Seq<char> {
    "Chromium archive SHA-256 mismatch for "@ + url + ". Expected "@ + expected + ", got "@
        + hex_bytes(digest)
}

/// Whether an archive with that digest may be unpacked.
pub fn check_digest(url: &str, expected: &str, digest: &[u8]) -> (r: Result<(), String>)
    ensures
        if digest_is(digest@, expected@) {
            r is Ok
        } else {
            r matches Err(error) && error@ == mismatch_text(url@, expected@, digest@)
        },
{
    let shown = hex_bytes_text(digest);
    if same_ignoring_ascii_case(shown.as_str(), expected) {
        Ok(())
    } else {
        let mut error = "Chromium archive SHA-256 mismatch for ".to_owned();
        error.append(url);
        error.append(". Expected ");
        error.append(expected);
        error.append(", got ");
        error.append(shown.as_str());
        Err(error)
    }
}

/// Whether an archive may be unpacked: its digest is the expected one.
pub fn check_archive(url: &str, expected: &str, archive: &[u8]) -> (r: Result<(), String>)
    ensures
        if digest_is(sha256(archive@), expected@) {
            r is Ok
        } else {
            r matches Err(error) && error@ == mismatch_text(url@, expected@, sha256(archive@))
        },
{
    let digest = sha256_digest(archive);
    check_digest(url, expected, digest.as_slice())
}

// ---------------------------------------------------------------------------
// Launching

/// The arguments that Chromium is launched with.
pub open spec fn launch_arguments(profile: Seq<char>, headless: bool) -> Seq<Seq<char>> {
    let base = Seq::empty().push("--remote-debugging-port=0"@).push(
        "--user-data-dir="@ + profile,
    ).push("--no-first-run"@).push("--no-default-browser-check"@).push("--disable-extensions"@);
    let shown = if headless {
        base.push("--headless=new"@)
    } else {
        base
    };
    shown.push("about:blank"@)
}

/// The name of the profile directory of the process of that number.
pub open spec fn profile_name(process: u32) -> Seq<char> {
    "zed-browser-"@ + decimal(process as nat)
}

/// The name of the profile directory of the process of that number.
pub fn profile_dir_name(process: u32) -> (r: String)
    ensures
        r@ == profile_name(process),
{
    let mut name = "zed-browser-".to_owned();
    name.append(decimal_text(process as u64).as_str());
    name
}

/// The arguments that Chromium is launched with.
pub fn chromium_arguments(profile: &str, headless: bool) -> (r: Vec<String>)
    ensures
        r.deep_view() == launch_arguments(profile@, headless),
{
    let mut directory = "--user-data-dir=".to_owned();
    directory.append(profile);
    let mut out: Vec<String> = Vec::new();
    out.push("--remote-debugging-port=0".to_owned());
    out.push(directory);
    out.push("--no-first-run".to_owned());
    out.push("--no-default-browser-check".to_owned());
    out.push("--disable-extensions".to_owned());
    if headless {
        out.push("--headless=new".to_owned());
    }
    out.push("about:blank".to_owned());
    assert(out.deep_view() =~= launch_arguments(profile@, headless));
    out
}

/// Whether a line announces the DevTools endpoint, and which one: what follows the
/// announcement's first place in the line, without white space at either end.
pub open spec fn announces(line: Seq<char>, endpoint: Seq<char>) -> bool {
    exists|at: int|
        {
            &&& #[trigger] occurs_at(line, "DevTools listening on "@, at)
            &&& forall|i: int| 0 <= i < at ==> !occurs_at(line, "DevTools listening on "@, i)
            &&& endpoint == trimmed(line.skip(at + "DevTools listening on "@.len()))
        }
}

/// The DevTools endpoint that a line announces.
pub fn parse_devtools_endpoint(line: &str) -> (r: Option<String>)
    ensures
        match r {
            Some(endpoint) => announces(line@, endpoint@),
            None => !occurs(line@, "DevTools listening on "@),
        },
{
    let chars = chars_of(line);
    let marker = chars_of("DevTools listening on ");
    match find_chars(&chars, &marker) {
        Some(at) => {
            let length: usize = chars.len();
            assert(at + marker@.len() <= length);
            Some(trim_from(&chars, at + marker.len()))
        },
        None => None,
    }
}

/// What reading a line of Chromium's output comes to.
#[derive(Debug)]
pub enum LineStep {
    /// The DevTools endpoint is known.
    Found { endpoint: String },
    /// The next line is to be read.
    ReadOn,
    /// There is no endpoint to be had.
    Failed { error: String },
}

/// What a line of Chromium's output comes to; nothing where the output has ended.
pub fn line_step(line: Option<&str>) -> (r: LineStep)
    ensures
        match line {
            Some(line) => if occurs(line@, "DevTools listening on "@) {
                r matches LineStep::Found { endpoint } && announces(line@, endpoint@)
            } else {
                r is ReadOn
            },
            None => r matches LineStep::Failed { error } && error@
                == "Chromium exited before exposing a DevTools endpoint"@,
        },
{
    match line {
        Some(line) => match parse_devtools_endpoint(line) {
            Some(endpoint) => LineStep::Found { endpoint },
            None => LineStep::ReadOn,
        },
        None => LineStep::Failed {
            error: "Chromium exited before exposing a DevTools endpoint".to_owned(),
        },
    }
}

// ---------------------------------------------------------------------------
// Which build, and how it is started

/// Each platform that has a build has names of its own: the archive of a build is named
/// after the platform, and only on a Mac does the processor matter.
pub proof fn law_platforms_have_names_of_their_own(
    os: Seq<char>,
    arch: Seq<char>,
    other_arch: Seq<char>,
)
    ensures
        platform_names(os, arch) is Some <==> os == "windows"@ || os == "macos"@ || os == "linux"@,
        platform_names(os, arch) matches Some(names) ==> names.archive_dir == "chrome-"@
            + names.key,
        os != "macos"@ ==> platform_names(os, arch) == platform_names(os, other_arch),
        os == "windows"@ ==> (platform_names(os, arch) matches Some(names) && names.key == "win64"@
            && names.binary_rel == "chrome.exe"@),
        os == "linux"@ ==> (platform_names(os, arch) matches Some(names) && names.key == "linux64"@
            && names.binary_rel == "chrome"@),
        os == "macos"@ ==> (platform_names(os, arch) matches Some(names) && (names.key
            == "mac-arm64"@ <==> arch == "aarch64"@) && (names.key == "mac-x64"@ <==> arch
            != "aarch64"@)),
{
    reveal_strlit("windows");
    reveal_strlit("macos");
    reveal_strlit("linux");
    assert("windows"@[0] == 'w' && "macos"@[0] == 'm' && "linux"@[0] == 'l');
    reveal_strlit("win64");
    reveal_strlit("linux64");
    reveal_strlit("mac-arm64");
    reveal_strlit("mac-x64");
    assert("mac-arm64"@.len() == 9 && "mac-x64"@.len() == 7);
    reveal_strlit("chrome-");
    reveal_strlit("chrome-win64");
    reveal_strlit("chrome-linux64");
    reveal_strlit("chrome-mac-arm64");
    reveal_strlit("chrome-mac-x64");
    assert("chrome-win64"@ =~= "chrome-"@ + "win64"@);
    assert("chrome-linux64"@ =~= "chrome-"@ + "linux64"@);
    assert("chrome-mac-arm64"@ =~= "chrome-"@ + "mac-arm64"@);
    assert("chrome-mac-x64"@ =~= "chrome-"@ + "mac-x64"@);
}

/// What is downloaded is the Chrome build for the platform of the pinned version, and the
/// digest is that build's.
pub proof fn law_download_is_of_version_and_platform(versions: JsonView, platform: Seq<char>)
    ensures
        download_in(versions, platform) matches Ok((url, digest)) ==> exists|
            version: JsonView,
            build: JsonView,
        |
            {
                &&& items_in(field(versions, "versions"@)) matches Some(list) && list.contains(
                    version,
                )
                &&& text_in(#[trigger] field(version, "version"@)) == Some(PINNED_CHROMIUM_VERSION@)
                &&& items_in(field_in(field(version, "downloads"@), "chrome"@)) matches Some(builds)
                    && builds.contains(build)
                &&& text_in(#[trigger] field(build, "platform"@)) == Some(platform)
                &&& text_in(field(build, "url"@)) == Some(url)
                &&& text_in(field(build, "sha256"@)) == Some(digest)
            },
{
    if let Ok((url, digest)) = download_in(versions, platform) {
        let list = items_in(field(versions, "versions"@))->0;
        law_first_item_is_found(list, "version"@, PINNED_CHROMIUM_VERSION@);
        let version = first_with(list, "version"@, PINNED_CHROMIUM_VERSION@)->0;
        let builds = items_in(field_in(field(version, "downloads"@), "chrome"@))->0;
        law_first_item_is_found(builds, "platform"@, platform);
        let build = first_with(builds, "platform"@, platform)->0;
        assert(list.contains(version));
        assert(builds.contains(build));
        assert(text_in(field(version, "version"@)) == Some(PINNED_CHROMIUM_VERSION@));
        assert(text_in(field(build, "platform"@)) == Some(platform));
    }
}

/// Where the list has the pinned version with a build for the platform that has a URL and a
/// digest, something is downloaded.
pub proof fn law_download_is_found(
    versions: JsonView,
    platform: Seq<char>,
    version: JsonView,
    build: JsonView,
    url: Seq<char>,
    digest: Seq<char>,
)
    requires
        field(versions, "versions"@) == Some(JsonView::Array(seq![version])),
        text_in(field(version, "version"@)) == Some(PINNED_CHROMIUM_VERSION@),
        field_in(field(version, "downloads"@), "chrome"@) == Some(JsonView::Array(seq![build])),
        text_in(field(build, "platform"@)) == Some(platform),
        text_in(field(build, "url"@)) == Some(url),
        text_in(field(build, "sha256"@)) == Some(digest),
    ensures
        download_in(versions, platform) == Ok::<(Seq<char>, Seq<char>), Seq<char>>((url, digest)),
{
    assert(seq![version][0] == version);
    assert(seq![build][0] == build);
}

/// A digest is written by its bytes: what is written for one digest is accepted for it,
/// in either case of the letters, and for no other of the same length.
pub proof fn law_digest_is_told_by_its_digits(digest: Seq<u8>, other: Seq<u8>)
    ensures
        digest_is(digest, hex_bytes(digest)),
        forall|written: Seq<char>|
            ascii_lower_text(written) == hex_bytes(digest) ==> #[trigger] digest_is(digest, written),
        digest.len() == other.len() && digest_is(digest, hex_bytes(other)) ==> digest == other,
{
    lemma_hex_bytes_are_lower(digest);
    lemma_hex_bytes_are_lower(other);
    if digest.len() == other.len() && digest_is(digest, hex_bytes(other)) {
        lemma_hex_bytes_injective(digest, other);
    }
}

/// What is said of another digest names the URL, the digest that was expected and the one
/// that came, in that order.
pub proof fn law_mismatch_names_both(url: Seq<char>, expected: Seq<char>, digest: Seq<u8>)
    ensures
        exists|a: Seq<char>, b: Seq<char>, c: Seq<char>|
            mismatch_text(url, expected, digest) == #[trigger] (a + url + b + expected + c
                + hex_bytes(digest)),
{
    let a = "Chromium archive SHA-256 mismatch for "@;
    assert(mismatch_text(url, expected, digest) == a + url + ". Expected "@ + expected + ", got "@
        + hex_bytes(digest));
}

/// Chromium is started with a port of its own choosing and with the given profile, shows the
/// blank page, and has no window exactly where none is wanted.
pub proof fn law_arguments_say_how_to_start(profile: Seq<char>, headless: bool)
    ensures
        launch_arguments(profile, headless).contains("--remote-debugging-port=0"@),
        launch_arguments(profile, headless).contains("--user-data-dir="@ + profile),
        launch_arguments(profile, headless).contains("--headless=new"@) <==> headless,
        launch_arguments(profile, headless).last() == "about:blank"@,
{
    reveal_strlit("--remote-debugging-port=0");
    reveal_strlit("--user-data-dir=");
    reveal_strlit("--no-first-run");
    reveal_strlit("--no-default-browser-check");
    reveal_strlit("--disable-extensions");
    reveal_strlit("--headless=new");
    reveal_strlit("about:blank");
    let arguments = launch_arguments(profile, headless);
    assert(arguments[0] == "--remote-debugging-port=0"@);
    assert(arguments[1] == "--user-data-dir="@ + profile);
    if headless {
        assert(arguments[5] == "--headless=new"@);
    } else {
        assert("--headless=new"@[2] == 'h');
        assert(arguments[0][2] == 'r' && arguments[1][2] == 'u' && arguments[2][2] == 'n'
            && arguments[3][2] == 'n' && arguments[4][2] == 'd' && arguments[5][2] == 'o');
    }
}

/// Two processes have profiles of different names.
pub proof fn law_profiles_differ(process: u32, other: u32)
    requires
        profile_name(process) == profile_name(other),
    ensures
        process == other,
{
    let front = "zed-browser-"@;
    assert(profile_name(process).skip(front.len() as int) =~= decimal(process as nat));
    assert(profile_name(other).skip(front.len() as int) =~= decimal(other as nat));
    lemma_decimal_injective(process as nat, other as nat);
}

/// A line announces at most one endpoint, and one that begins with the announcement announces
/// what follows it.
pub proof fn law_announced_endpoint_follows(line: Seq<char>, a: Seq<char>, b: Seq<char>)
    ensures
        announces(line, a) && announces(line, b) ==> a == b,
        line == "DevTools listening on "@ + a ==> announces(line, trimmed(a)),
{
    let marker = "DevTools listening on "@;
    if line == marker + a {
        assert(line.subrange(0, marker.len() as int) =~= marker);
        assert(occurs_at(line, marker, 0));
        assert(line.skip(marker.len() as int) =~= a);
    }
}

/// Where nothing can be downloaded, the first thing that is missing is named: the list, the
/// version, its builds, the build for the platform, the URL or the digest.
pub proof fn law_what_is_missing_is_named(
    versions: JsonView,
    platform: Seq<char>,
    version: JsonView,
    build: JsonView,
)
    ensures
        field(versions, "versions"@) is None ==> (download_in(versions, platform) matches Err(error)
            && occurs(error, "`versions`"@)),
        field(versions, "versions"@) == Some(JsonView::Array(seq![version])) && text_in(
            field(version, "version"@),
        ) == Some(PINNED_CHROMIUM_VERSION@) ==> {
            &&& field(version, "downloads"@) is None ==> (download_in(
                versions,
                platform,
            ) matches Err(error) && occurs(error, "`chrome`"@))
            &&& field_in(field(version, "downloads"@), "chrome"@) == Some(
                JsonView::Array(seq![build]),
            ) ==> {
                &&& field(build, "platform"@) is None ==> (download_in(
                    versions,
                    platform,
                ) matches Err(error) && occurs(error, platform))
                &&& text_in(field(build, "platform"@)) == Some(platform) && field(build, "url"@)
                    is None ==> (download_in(versions, platform) matches Err(error) && occurs(
                    error,
                    "`url`"@,
                ))
                &&& text_in(field(build, "platform"@)) == Some(platform) && text_in(
                    field(build, "url"@),
                ) is Some && field(build, "sha256"@) is None ==> (download_in(
                    versions,
                    platform,
                ) matches Err(error) && occurs(error, "`sha256`"@))
            }
        },
{
    lemma_missing_texts();
    assert(seq![version][0] == version && seq![build][0] == build);
    assert(seq![build].drop_first() =~= Seq::<JsonView>::empty());
    let no_build = "Chrome for Testing has no "@ + platform + " build for "@
        + PINNED_CHROMIUM_VERSION@;
    let back = " build for "@ + PINNED_CHROMIUM_VERSION@;
    assert(no_build =~= "Chrome for Testing has no "@ + platform + back);
    lemma_occurs_between(no_build, "Chrome for Testing has no "@, platform, back);
    reveal_with_fuel(first_with, 2);
}

proof fn lemma_missing_texts()
    ensures
        occurs("Chrome for Testing versions response has no `versions` array"@, "`versions`"@),
        occurs("Chrome for Testing version has no `chrome` downloads"@, "`chrome`"@),
        occurs("Chrome for Testing download has no `url`"@, "`url`"@),
        occurs("Chrome for Testing download has no `sha256`"@, "`sha256`"@),
{
    let text = "Chrome for Testing versions response has no `versions` array"@;
    reveal_strlit("Chrome for Testing versions response has no `versions` array");
    reveal_strlit("`versions`");
    assert(text.subrange(44, 54) =~= "`versions`"@);
    assert(occurs_at(text, "`versions`"@, 44));
    let text = "Chrome for Testing version has no `chrome` downloads"@;
    reveal_strlit("Chrome for Testing version has no `chrome` downloads");
    reveal_strlit("`chrome`");
    assert(text.subrange(34, 42) =~= "`chrome`"@);
    assert(occurs_at(text, "`chrome`"@, 34));
    let text = "Chrome for Testing download has no `url`"@;
    reveal_strlit("Chrome for Testing download has no `url`");
    reveal_strlit("`url`");
    assert(text.subrange(35, 40) =~= "`url`"@);
    assert(occurs_at(text, "`url`"@, 35));
    let text = "Chrome for Testing download has no `sha256`"@;
    reveal_strlit("Chrome for Testing download has no `sha256`");
    reveal_strlit("`sha256`");
    assert(text.subrange(35, 43) =~= "`sha256`"@);
    assert(occurs_at(text, "`sha256`"@, 35));
}

} // verus!
