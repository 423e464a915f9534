//! `install`: the manifest by which one browser finds this program.
use crate::json::{Json, JsonView};
use crate::model;
use crate::output::{CommandOutput, OutputView};
use crate::paths;
use crate::paths::join;
use crate::text::same;
use crate::text;
use vstd::prelude::*;
use vstd::string::StringExecFns;

verus! {

/// The arguments of `install`.
#[derive(Debug, PartialEq, Eq)]
pub struct InstallArgs {
    /// The extension that may connect.
    pub extension_id: Option<String>,
}

/// What stands for the extension's id until it is known.
pub open spec fn placeholder() -> Seq<char> {
    "EXTENSION_ID_HERE"@
}

/// The extension's id.
pub open spec fn id_of(args: InstallArgs) -> Seq<char> {
    match model::maybe(args.extension_id) {
        Some(id) => id,
        None => placeholder(),
    }
}

/// Where the home directory is; a directory for everyone where none is known.
pub open spec fn home_of(home: Option<Seq<char>>) -> Seq<char> {
    match home {
        Some(h) => h,
        None => "/tmp"@,
    }
}

/// The directory in which the browser looks for manifests.
pub open spec fn nm_dir(home: Option<Seq<char>>, macos: bool) -> Seq<char> {
    if macos {
        paths::joined(
            paths::joined(
                paths::joined(
                    paths::joined(
                        paths::joined(home_of(home), "Library"@),
                        "Application Support"@,
                    ),
                    "Google"@,
                ),
                "Chrome"@,
            ),
            "NativeMessagingHosts"@,
        )
    } else {
        paths::joined(
            paths::joined(paths::joined(home_of(home), ".config"@), "google-chrome"@),
            "NativeMessagingHosts"@,
        )
    }
}

/// The directory in which the browser looks for manifests.
pub fn dirs_nm(home: Option<&str>, macos: bool) -> (r: String)
    ensures
        r@ == nm_dir(model::maybe(home), macos),
{
    let root = match home {
        Some(h) => h.to_owned(),
        None => "/tmp".to_owned(),
    };
    if macos {
        let base = join(join(root.as_str(), "Library").as_str(), "Application Support");
        join(
            join(join(base.as_str(), "Google").as_str(), "Chrome").as_str(),
            "NativeMessagingHosts",
        )
    } else {
        join(
            join(join(root.as_str(), ".config").as_str(), "google-chrome").as_str(),
            "NativeMessagingHosts",
        )
    }
}

/// The manifest.
pub open spec fn manifest_json(id: Seq<char>, binary: Seq<char>) -> JsonView {
    JsonView::object().with("name"@, JsonView::Str("com.webpilot.host"@)).with(
        "description"@,
        JsonView::Str("WebPilot - Browser control tool for AI agents"@),
    ).with("path"@, JsonView::Str(binary)).with("type"@, JsonView::Str("stdio"@)).with(
        "allowed_origins"@,
        JsonView::array().item(JsonView::Str("chrome-extension://"@ + id + "/"@)),
    )
}

/// What is printed.
pub open spec fn report(id: Seq<char>, path: Seq<char>, binary: Seq<char>) -> OutputView {
    let head = "Native Messaging host installed!\n  Manifest: "@ + path + "\n  Binary:   "@
        + binary;
    OutputView::Data(
        JsonView::object().with("installed"@, JsonView::Bool(true)).with(
            "manifest_path"@,
            JsonView::Str(path),
        ).with("binary_path"@, JsonView::Str(binary)).with("extension_id"@, JsonView::Str(id)),
        if id == placeholder() {
            head
                + "\n\nNext steps:\n  1. Load extension in Chrome:\n     chrome://extensions -> Developer mode -> Load unpacked\n     Select: extension/\n  2. Copy the Extension ID and re-run:\n     webpilot install --extension-id <ID>\n  3. Reload the extension in Chrome\n  4. Test: webpilot status"@
        } else {
            head + "\n\nExtension ID: "@ + id
                + "\nReload the extension in Chrome, then test: webpilot status"@
        },
    )
}

/// What installing takes: the manifest, where it goes, and what is printed once it is there.
pub struct Installation {
    pub dir: String,
    pub path: String,
    pub manifest: Json,
    pub output: CommandOutput,
}

/// Decides what installing takes.
pub fn run(args: InstallArgs, home: Option<&str>, macos: bool, binary: &str) -> (r: Installation)
    ensures
        r.dir@ == nm_dir(model::maybe(home), macos),
        r.path@ == paths::joined(r.dir@, "com.webpilot.host.json"@),
        r.manifest@ == manifest_json(id_of(args), binary@),
        r.output@ == report(id_of(args), r.path@, binary@),
{
    let id = match args.extension_id {
        Some(id) => id,
        None => "EXTENSION_ID_HERE".to_owned(),
    };
    let dir = dirs_nm(home, macos);
    let path = join(dir.as_str(), "com.webpilot.host.json");
    let origin = "chrome-extension://".to_owned().concat(id.as_str()).concat("/");
    let manifest = Json::object().with("name", Json::string("com.webpilot.host")).with(
        "description",
        Json::string("WebPilot - Browser control tool for AI agents"),
    ).with("path", Json::string(binary)).with("type", Json::string("stdio")).with(
        "allowed_origins",
        Json::array().item(Json::string(origin.as_str())),
    );
    let head = "Native Messaging host installed!\n  Manifest: ".to_owned().concat(
        path.as_str(),
    ).concat("\n  Binary:   ").concat(binary);
    let human = if same(id.as_str(), "EXTENSION_ID_HERE") {
        head.concat(
            "\n\nNext steps:\n  1. Load extension in Chrome:\n     chrome://extensions -> Developer mode -> Load unpacked\n     Select: extension/\n  2. Copy the Extension ID and re-run:\n     webpilot install --extension-id <ID>\n  3. Reload the extension in Chrome\n  4. Test: webpilot status",
        )
    } else {
        head.concat("\n\nExtension ID: ").concat(id.as_str()).concat(
            "\nReload the extension in Chrome, then test: webpilot status",
        )
    };
    let json = Json::object().with("installed", Json::Bool(true)).with(
        "manifest_path",
        Json::string(path.as_str()),
    ).with("binary_path", Json::string(binary)).with(
        "extension_id",
        Json::string(id.as_str()),
    );
    Installation { dir, path, manifest, output: CommandOutput::Data { json, human } }
}

/// The manifest lets the browser start this program for the extension that is given, or for the
/// placeholder until it is known; it goes into the directory of manifests under the home directory,
/// and what is printed tells all of that.
pub proof fn law_the_host_is_installed(
    args: InstallArgs,
    home: Option<&str>,
    macos: bool,
    binary: &str,
    dir: String,
    r: Installation,
)
    requires
        call_ensures(run, (args, home, macos, binary), r),
        call_ensures(dirs_nm, (home, macos), dir),
    ensures
        ({
            let id = match args.extension_id {
                Some(id) => id@,
                None => "EXTENSION_ID_HERE"@,
            };
            &&& r.manifest@.get("name"@) == Some(JsonView::Str("com.webpilot.host"@))
            &&& r.manifest@.get("path"@) == Some(JsonView::Str(binary@))
            &&& r.manifest@.get("type"@) == Some(JsonView::Str("stdio"@))
            &&& r.manifest@.get("allowed_origins"@) matches Some(JsonView::Array(list)) && list.len()
                == 1 && list[0] == JsonView::Str("chrome-extension://"@ + id + "/"@)
            &&& r.dir@ == dir@
            &&& text::has_suffix(r.path@, "com.webpilot.host.json"@)
            &&& text::has_prefix(r.path@, r.dir@)
            &&& r.output matches CommandOutput::Data { json, human } && {
                &&& json@.get("installed"@) == Some(JsonView::Bool(true))
                &&& json@.get("manifest_path"@) == Some(JsonView::Str(r.path@))
                &&& json@.get("binary_path"@) == Some(JsonView::Str(binary@))
                &&& json@.get("extension_id"@) == Some(JsonView::Str(id))
                &&& text::holds(human@, r.path@)
                &&& text::holds(human@, binary@)
            }
        }),
{
    reveal_strlit("name");
    reveal_strlit("description");
    reveal_strlit("path");
    reveal_strlit("type");
    reveal_strlit("allowed_origins");
    assert("name"@.len() == 4);
    assert("description"@.len() == 11);
    assert("path"@.len() == 4);
    assert("type"@.len() == 4);
    assert("allowed_origins"@.len() == 15);
    assert("name"@[0] != "path"@[0]);
    assert("name"@[0] != "type"@[0]);
    assert("path"@[0] != "type"@[0]);
    reveal_strlit("installed");
    reveal_strlit("manifest_path");
    reveal_strlit("binary_path");
    reveal_strlit("extension_id");
    assert("installed"@.len() == 9);
    assert("manifest_path"@.len() == 13);
    assert("binary_path"@.len() == 11);
    assert("extension_id"@.len() == 12);
    reveal_strlit("com.webpilot.host.json");
    let file = "com.webpilot.host.json"@;
    let sep = if r.dir@.len() == 0 || r.dir@.last() == '/' {
        Seq::<char>::empty()
    } else {
        "/"@
    };
    assert(r.path@ =~= r.dir@ + sep + file);
    text::lemma_back(r.dir@ + sep, file);
    assert(r.path@ =~= r.dir@ + (sep + file));
    text::lemma_front(r.dir@, sep + file);
    if let CommandOutput::Data { json, human } = r.output {
        let front = "Native Messaging host installed!\n  Manifest: "@;
        let mid = "\n  Binary:   "@;
        let end = human@.skip((front + r.path@ + mid + binary@).len() as int);
        assert(human@ =~= front + r.path@ + mid + binary@ + end);
        text::lemma_part(front + r.path@ + mid, binary@, end);
        assert(human@ =~= front + r.path@ + (mid + binary@ + end));
        text::lemma_part(front, r.path@, mid + binary@ + end);
    }
}

/// The directory of manifests is the browser's, under the home directory.
pub proof fn law_manifests_have_their_directory(home: &str, linux: String, mac: String)
    requires
        home@.len() > 0,
        home@.last() != '/',
        call_ensures(dirs_nm, (Some(home), false), linux),
        call_ensures(dirs_nm, (Some(home), true), mac),
    ensures
        linux@ == home@ + "/.config/google-chrome/NativeMessagingHosts"@,
        mac@ == home@ + "/Library/Application Support/Google/Chrome/NativeMessagingHosts"@,
{
    reveal_strlit("/");
    reveal_strlit(".config");
    reveal_strlit("google-chrome");
    reveal_strlit("NativeMessagingHosts");
    reveal_strlit("Library");
    reveal_strlit("Application Support");
    reveal_strlit("Google");
    reveal_strlit("Chrome");
    reveal_strlit("/.config/google-chrome/NativeMessagingHosts");
    reveal_strlit("/Library/Application Support/Google/Chrome/NativeMessagingHosts");
    assert("/"@ + ".config"@ + "/"@ + "google-chrome"@ + "/"@ + "NativeMessagingHosts"@
        =~= "/.config/google-chrome/NativeMessagingHosts"@);
    assert("/"@ + "Library"@ + "/"@ + "Application Support"@ + "/"@ + "Google"@ + "/"@ + "Chrome"@
        + "/"@ + "NativeMessagingHosts"@
        =~= "/Library/Application Support/Google/Chrome/NativeMessagingHosts"@);
    assert(linux@ =~= home@ + ("/"@ + ".config"@ + "/"@ + "google-chrome"@ + "/"@
        + "NativeMessagingHosts"@));
    assert(mac@ =~= home@ + ("/"@ + "Library"@ + "/"@ + "Application Support"@ + "/"@ + "Google"@
        + "/"@ + "Chrome"@ + "/"@ + "NativeMessagingHosts"@));
}

} // verus!
