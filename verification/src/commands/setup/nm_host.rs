//! `setup nm-host`: the manifest by which a browser finds and starts this program as its native
//! messaging host.
use crate::commands::setup::StepOutcome;
use crate::error;
use crate::error::{ErrorView, WebPilotError};
use crate::json;
use crate::json::{Json, JsonView};
use crate::model;
use crate::paths;
use crate::paths::join;
use crate::text;
use crate::text::{chars_of, trim};
use vstd::prelude::*;
use vstd::string::StringExecFns;

verus! {

/// The arguments of `setup nm-host`.
#[derive(Debug, PartialEq, Eq)]
pub struct NmHostArgs {
    /// The extension that may connect; this program's own where none is given.
    pub extension_id: Option<String>,
}

/// The host's name: in the manifest, as the manifest's file name, and to the extension.
pub const NM_HOST_NAME: &'static str = "com.webpilot.host";

/// How a browser talks to the host.
pub const NM_HOST_TYPE: &'static str = "stdio";

/// A character of an extension's id.
pub open spec fn is_id_char(c: char) -> bool {
    97 <= (c as int) <= 112
}

/// An extension's id: 32 letters from `a` to `p`.
pub open spec fn is_extension_id(id: Seq<char>) -> bool {
    id.len() == 32 && forall|i: int| 0 <= i < id.len() ==> is_id_char(#[trigger] id[i])
}

fn id_char(c: char) -> (r: bool)
    ensures
        r == is_id_char(c),
{
    let n: u32 = c as u32;
    97 <= n && n <= 112
}

/// Whether a text is an extension's id.
pub fn is_valid_extension_id(id: &str) -> (r: bool)
    ensures
        r == is_extension_id(id@),
{
    let chars = chars_of(id);
    if chars.len() != 32 {
        return false;
    }
    for i in 0..chars.len()
        invariant
            chars@ == id@,
            forall|j: int| 0 <= j < i ==> is_id_char(#[trigger] id@[j]),
    {
        if !id_char(chars[i]) {
            assert(!is_id_char(id@[i as int]));
            return false;
        }
    }
    true
}

/// The home directory: an empty one is none.
pub open spec fn home_of(home: Option<Seq<char>>) -> Result<Seq<char>, ErrorView> {
    match home {
        Some(h) => if h.len() > 0 {
            Ok(h)
        } else {
            Err(home_missing())
        },
        None => Err(home_missing()),
    }
}

/// The error where there is no home directory.
pub open spec fn home_missing() -> ErrorView {
    ErrorView::Other("HOME is not set — cannot locate a browser's Native Messaging directory"@)
}

fn home_dir(home: Option<&str>) -> (r: Result<String, WebPilotError>)
    ensures
        error::outcome(r) == home_of(model::maybe(home)),
{
    if let Some(h) = home {
        if !h.is_empty() {
            return Ok(h.to_owned());
        }
    }
    Err(
        WebPilotError::other(
            "HOME is not set — cannot locate a browser's Native Messaging directory",
        ),
    )
}

/// The profile directories of the browsers, under the directory that holds them.
pub open spec fn browsers(macos: bool) -> Seq<Seq<char>> {
    if macos {
        seq![
            "Google/Chrome"@,
            "Google/Chrome Beta"@,
            "Google/Chrome Dev"@,
            "Google/Chrome Canary"@,
            "Google/Chrome for Testing"@,
            "Chromium"@,
            "BraveSoftware/Brave-Browser"@,
            "Microsoft Edge"@,
        ]
    } else {
        seq![
            "google-chrome"@,
            "google-chrome-beta"@,
            "google-chrome-unstable"@,
            "chromium"@,
            "BraveSoftware/Brave-Browser"@,
            "microsoft-edge"@,
        ]
    }
}

fn browser_names(macos: bool) -> (r: Vec<String>)
    ensures
        text::texts(r@) == browsers(macos),
{
    let mut names: Vec<String> = Vec::new();
    if macos {
        names.push("Google/Chrome".to_owned());
        names.push("Google/Chrome Beta".to_owned());
        names.push("Google/Chrome Dev".to_owned());
        names.push("Google/Chrome Canary".to_owned());
        names.push("Google/Chrome for Testing".to_owned());
        names.push("Chromium".to_owned());
        names.push("BraveSoftware/Brave-Browser".to_owned());
        names.push("Microsoft Edge".to_owned());
    } else {
        names.push("google-chrome".to_owned());
        names.push("google-chrome-beta".to_owned());
        names.push("google-chrome-unstable".to_owned());
        names.push("chromium".to_owned());
        names.push("BraveSoftware/Brave-Browser".to_owned());
        names.push("microsoft-edge".to_owned());
    }
    proof {
        text::lemma_texts_index(names@);
        assert(text::texts(names@) =~= browsers(macos));
    }
    names
}

/// The directory that holds the browsers' profile directories.
pub open spec fn profiles_root(home: Seq<char>, macos: bool) -> Seq<char> {
    if macos {
        paths::joined(paths::joined(home, "Library"@), "Application Support"@)
    } else {
        paths::joined(home, ".config"@)
    }
}

/// Each browser's profile directory.
pub open spec fn profile_dirs(home: Seq<char>, macos: bool) -> Seq<Seq<char>> {
    Seq::new(
        browsers(macos).len(),
        |i: int| paths::joined(profiles_root(home, macos), browsers(macos)[i]),
    )
}

/// Each browser's profile directory. A browser is installed where it exists.
pub fn nm_profile_dirs(home: &str, macos: bool) -> (r: Vec<String>)
    ensures
        text::texts(r@) == profile_dirs(home@, macos),
{
    let root = if macos {
        join(join(home, "Library").as_str(), "Application Support")
    } else {
        join(home, ".config")
    };
    let names = browser_names(macos);
    let mut dirs: Vec<String> = Vec::new();
    proof {
        text::lemma_texts_index(names@);
    }
    for i in 0..names.len()
        invariant
            root@ == profiles_root(home@, macos),
            names@.len() == browsers(macos).len(),
            forall|j: int| 0 <= j < names@.len() ==> (#[trigger] names@[j])@ == browsers(macos)[j],
            dirs@.len() == i,
            forall|j: int|
                0 <= j < i ==> (#[trigger] dirs@[j])@ == paths::joined(root@, browsers(macos)[j]),
    {
        dirs.push(join(root.as_str(), names[i].as_str()));
    }
    proof {
        text::lemma_texts_index(dirs@);
        assert(text::texts(dirs@) =~= profile_dirs(home@, macos));
    }
    dirs
}

/// Each directory in which a browser looks for the manifests of hosts.
pub open spec fn candidate_dirs(home: Seq<char>, macos: bool) -> Seq<Seq<char>> {
    Seq::new(
        browsers(macos).len(),
        |i: int| paths::joined(profile_dirs(home, macos)[i], "NativeMessagingHosts"@),
    )
}

/// Each directory in which a browser looks for the manifests of hosts, under a home directory.
pub fn nm_candidate_dirs_under(home: &str, macos: bool) -> (r: Vec<String>)
    ensures
        text::texts(r@) == candidate_dirs(home@, macos),
{
    let profiles = nm_profile_dirs(home, macos);
    let mut dirs: Vec<String> = Vec::new();
    proof {
        text::lemma_texts_index(profiles@);
    }
    for i in 0..profiles.len()
        invariant
            profiles@.len() == browsers(macos).len(),
            forall|j: int|
                0 <= j < profiles@.len() ==> (#[trigger] profiles@[j])@ == profile_dirs(
                    home@,
                    macos,
                )[j],
            dirs@.len() == i,
            forall|j: int|
                0 <= j < i ==> (#[trigger] dirs@[j])@ == paths::joined(
                    profile_dirs(home@, macos)[j],
                    "NativeMessagingHosts"@,
                ),
    {
        dirs.push(join(profiles[i].as_str(), "NativeMessagingHosts"));
    }
    proof {
        text::lemma_texts_index(dirs@);
        assert(text::texts(dirs@) =~= candidate_dirs(home@, macos));
    }
    dirs
}

/// The manifest's file name.
pub open spec fn manifest_file() -> Seq<char> {
    NM_HOST_NAME@ + ".json"@
}

/// The manifest's path in each directory.
pub open spec fn manifest_files(dirs: Seq<Seq<char>>) -> Seq<Seq<char>> {
    Seq::new(dirs.len(), |i: int| paths::joined(dirs[i], manifest_file()))
}

fn manifest_paths_in(dirs: &Vec<String>) -> (r: Vec<String>)
    ensures
        text::texts(r@) == manifest_files(text::texts(dirs@)),
{
    let file = NM_HOST_NAME.to_owned().concat(".json");
    let mut out: Vec<String> = Vec::new();
    proof {
        text::lemma_texts_index(dirs@);
    }
    for i in 0..dirs.len()
        invariant
            file@ == manifest_file(),
            out@.len() == i,
            forall|j: int|
                0 <= j < i ==> (#[trigger] out@[j])@ == paths::joined(dirs@[j]@, manifest_file()),
    {
        out.push(join(dirs[i].as_str(), file.as_str()));
    }
    proof {
        text::lemma_texts_index(out@);
        assert(text::texts(out@) =~= manifest_files(text::texts(dirs@)));
    }
    out
}

/// The paths of every manifest that may be written, looked at or removed.
pub open spec fn manifest_paths(home: Option<Seq<char>>, macos: bool) -> Result<
    Seq<Seq<char>>,
    ErrorView,
> {
    match home_of(home) {
        Ok(h) => Ok(manifest_files(candidate_dirs(h, macos))),
        Err(e) => Err(e),
    }
}

/// The paths of every manifest that may be written, looked at or removed.
pub fn nm_manifest_paths(home: Option<&str>, macos: bool) -> (r: Result<Vec<String>, WebPilotError>)
    ensures
        match manifest_paths(model::maybe(home), macos) {
            Ok(paths) => r is Ok && text::texts(r->Ok_0@) == paths,
            Err(e) => r is Err && r->Err_0@ == e,
        },
{
    match home_dir(home) {
        Ok(h) => {
            let dirs = nm_candidate_dirs_under(h.as_str(), macos);
            Ok(manifest_paths_in(&dirs))
        },
        Err(e) => Err(e),
    }
}

/// The candidates whose browser is installed.
pub open spec fn targets(dirs: Seq<Seq<char>>, present: Seq<bool>) -> Seq<Seq<char>>
    decreases dirs.len(),
{
    if dirs.len() == 0 {
        Seq::empty()
    } else {
        let before = targets(dirs.drop_last(), present);
        if dirs.len() <= present.len() && present[dirs.len() - 1] {
            before.push(dirs.last())
        } else {
            before
        }
    }
}

/// The candidates whose browser is installed, where `present` tells of each whether its profile
/// directory exists.
pub fn nm_target_dirs(dirs: &Vec<String>, present: &Vec<bool>) -> (r: Vec<String>)
    ensures
        text::texts(r@) == targets(text::texts(dirs@), present@),
{
    let mut out: Vec<String> = Vec::new();
    let ghost all = text::texts(dirs@);
    proof {
        text::lemma_texts_index(dirs@);
        assert(all.take(0) =~= Seq::empty());
    }
    for i in 0..dirs.len()
        invariant
            all == text::texts(dirs@),
            all.len() == dirs@.len(),
            forall|j: int| 0 <= j < dirs@.len() ==> (#[trigger] dirs@[j])@ == all[j],
            text::texts(out@) == targets(all.take(i as int), present@),
    {
        let ghost before = out@;
        proof {
            assert(all.take(i + 1).drop_last() =~= all.take(i as int));
            assert(all.take(i + 1).last() == dirs@[i as int]@);
        }
        if i < present.len() && present[i] {
            let dir = dirs[i].clone();
            proof {
                text::lemma_texts_push(before, dir);
            }
            out.push(dir);
        }
    }
    assert(all.take(dirs@.len() as int) =~= all);
    out
}

/// The id to authorise, and whether it is this program's own.
pub open spec fn authorised(requested: Option<Seq<char>>, own: Seq<char>) -> Result<
    (Seq<char>, bool),
    ErrorView,
> {
    let (id, auto) = match requested {
        Some(id) => (text::trimmed(id), false),
        None => (own, true),
    };
    if is_extension_id(id) {
        Ok((id, auto))
    } else {
        Err(
            ErrorView::InvalidArgument(
                "invalid extension ID: "@ + id
                    + " — expected 32 characters in [a-p], found at chrome://extensions with Developer mode enabled"@,
            ),
        )
    }
}

/// The id to authorise, and whether it is this program's own.
pub fn extension_to_authorise(requested: Option<String>, own: &str) -> (r: Result<
    (String, bool),
    WebPilotError,
>)
    ensures
        match authorised(model::maybe(requested), own@) {
            Ok(a) => r is Ok && r->Ok_0.0@ == a.0 && r->Ok_0.1 == a.1,
            Err(e) => r is Err && r->Err_0@ == e,
        },
{
    let (id, auto) = match requested {
        Some(id) => (trim(id.as_str()), false),
        None => (own.to_owned(), true),
    };
    if is_valid_extension_id(id.as_str()) {
        Ok((id, auto))
    } else {
        Err(
            WebPilotError::InvalidArgument {
                detail: "invalid extension ID: ".to_owned().concat(id.as_str()).concat(
                    " — expected 32 characters in [a-p], found at chrome://extensions with Developer mode enabled",
                ),
            },
        )
    }
}

/// The one origin that may connect to the host.
pub open spec fn origin(id: Seq<char>) -> Seq<char> {
    "chrome-extension://"@ + id + "/"@
}

/// The manifest.
pub open spec fn manifest_json(id: Seq<char>, binary: Seq<char>) -> JsonView {
    JsonView::object().with("name"@, JsonView::Str(NM_HOST_NAME@)).with(
        "description"@,
        JsonView::Str("WebPilot — Browser control tool for AI agents"@),
    ).with("path"@, JsonView::Str(binary)).with("type"@, JsonView::Str(NM_HOST_TYPE@)).with(
        "allowed_origins"@,
        JsonView::array().item(JsonView::Str(origin(id))),
    )
}

/// The manifest, by which the browser starts `binary` for the extension and for nothing else.
pub fn manifest(id: &str, binary: &str) -> (r: Json)
    ensures
        r@ == manifest_json(id@, binary@),
{
    let origin = "chrome-extension://".to_owned().concat(id).concat("/");
    Json::object().with("name", Json::string(NM_HOST_NAME)).with(
        "description",
        Json::string("WebPilot — Browser control tool for AI agents"),
    ).with("path", Json::string(binary)).with("type", Json::string(NM_HOST_TYPE)).with(
        "allowed_origins",
        Json::array().item(Json::string(origin.as_str())),
    )
}

/// What the step reports where no browser is installed.
pub open spec fn no_browser(id: Seq<char>, auto: bool) -> (JsonView, Seq<char>) {
    (
        JsonView::object().with("manifest_paths"@, JsonView::array()).with(
            "extension_id"@,
            JsonView::Str(id),
        ).with("auto_detected"@, JsonView::Bool(auto)),
        "  NM host not registered — no Chrome-family browser found.\n  Install Chrome (or Chromium / Brave / Edge), then: webpilot setup nm-host\n  Extension: "@
            + id,
    )
}

/// The lines that tell where the manifest was written.
pub open spec fn manifest_lines(paths: Seq<Seq<char>>) -> Seq<char>
    decreases paths.len(),
{
    if paths.len() == 0 {
        Seq::empty()
    } else {
        manifest_lines(paths.drop_last()) + "\n  Manifest: "@ + paths.last()
    }
}

/// What the step reports where the manifest was written.
pub open spec fn registered(
    id: Seq<char>,
    auto: bool,
    binary: Seq<char>,
    paths: Seq<Seq<char>>,
) -> (JsonView, Seq<char>) {
    (
        JsonView::object().with("manifest_paths"@, json::texts_json(paths)).with(
            "binary_path"@,
            JsonView::Str(binary),
        ).with("extension_id"@, JsonView::Str(id)).with("auto_detected"@, JsonView::Bool(auto)),
        "✓ NM host registered"@ + (if auto {
            " (extension id auto-detected)"@
        } else {
            ""@
        }) + manifest_lines(paths) + "\n  Binary:   "@ + binary + "\n  Extension: "@ + id
            + "\n\n  Once the unpacked extension is loaded in your browser, verify with:\n    webpilot --browser status"@,
    )
}

fn manifest_text_lines(paths: &Vec<String>) -> (r: String)
    ensures
        r@ == manifest_lines(text::texts(paths@)),
{
    let mut out = String::new();
    let ghost all = text::texts(paths@);
    proof {
        text::lemma_texts_index(paths@);
        assert(all.take(0) =~= Seq::empty());
    }
    for i in 0..paths.len()
        invariant
            all.len() == paths@.len(),
            forall|j: int| 0 <= j < paths@.len() ==> (#[trigger] paths@[j])@ == all[j],
            out@ == manifest_lines(all.take(i as int)),
    {
        proof {
            assert(all.take(i + 1).drop_last() =~= all.take(i as int));
            assert(all.take(i + 1).last() == paths@[i as int]@);
        }
        out.append("\n  Manifest: ");
        out.append(paths[i].as_str());
    }
    assert(all.take(paths@.len() as int) =~= all);
    out
}

/// What is to be written, and what is reported once it is: the manifest's text, in every one of
/// the directories, or nothing where no browser is installed.
pub struct Registration {
    /// The directories to make.
    pub dirs: Vec<String>,
    /// The manifest's path in each of them.
    pub paths: Vec<String>,
    pub manifest: Option<Json>,
    pub outcome: StepOutcome,
}

/// What a registration is.
pub struct RegistrationView {
    pub dirs: Seq<Seq<char>>,
    pub paths: Seq<Seq<char>>,
    pub manifest: Option<JsonView>,
    pub outcome: (JsonView, Seq<char>),
}

impl View for Registration {
    type V = RegistrationView;

    open spec fn view(&self) -> RegistrationView {
        RegistrationView {
            dirs: text::texts(self.dirs@),
            paths: text::texts(self.paths@),
            manifest: json::json_opt(self.manifest),
            outcome: self.outcome@,
        }
    }
}

/// What registering comes to. A bad id counts before a missing home directory, and this program's
/// own path only where there is something to write.
pub open spec fn registration(
    requested: Option<Seq<char>>,
    own: Seq<char>,
    home: Option<Seq<char>>,
    macos: bool,
    present: Seq<bool>,
    binary: Result<Seq<char>, ErrorView>,
) -> Result<RegistrationView, ErrorView> {
    match authorised(requested, own) {
        Err(e) => Err(e),
        Ok(a) => match home_of(home) {
            Err(e) => Err(e),
            Ok(h) => {
                let dirs = targets(candidate_dirs(h, macos), present);
                if dirs.len() == 0 {
                    Ok(
                        RegistrationView {
                            dirs,
                            paths: Seq::empty(),
                            manifest: None,
                            outcome: no_browser(a.0, a.1),
                        },
                    )
                } else {
                    match binary {
                        Err(e) => Err(e),
                        Ok(b) => Ok(
                            RegistrationView {
                                dirs,
                                paths: manifest_files(dirs),
                                manifest: Some(manifest_json(a.0, b)),
                                outcome: registered(a.0, a.1, b, manifest_files(dirs)),
                            },
                        ),
                    }
                }
            },
        },
    }
}

/// Decides what registering takes. `present` tells of each candidate whether its browser is
/// installed, and `binary` is this program's own path or why it is not known.
pub fn install(
    extension_id: Option<String>,
    own: &str,
    home: Option<&str>,
    macos: bool,
    present: &Vec<bool>,
    binary: Result<String, WebPilotError>,
) -> (r: Result<Registration, WebPilotError>)
    ensures
        error::outcome(r) == registration(
            model::maybe(extension_id),
            own@,
            model::maybe(home),
            macos,
            present@,
            error::outcome(binary),
        ),
{
    let (id, auto) = match extension_to_authorise(extension_id, own) {
        Ok(a) => a,
        Err(e) => {
            return Err(e);
        },
    };
    let home = match home_dir(home) {
        Ok(h) => h,
        Err(e) => {
            return Err(e);
        },
    };
    let dirs = nm_target_dirs(&nm_candidate_dirs_under(home.as_str(), macos), present);
    proof {
        text::lemma_texts_index(dirs@);
    }
    if dirs.len() == 0 {
        let json = Json::object().with("manifest_paths", Json::array()).with(
            "extension_id",
            Json::string(id.as_str()),
        ).with("auto_detected", Json::Bool(auto));
        let human =
            "  NM host not registered — no Chrome-family browser found.\n  Install Chrome (or Chromium / Brave / Edge), then: webpilot setup nm-host\n  Extension: ".to_owned().concat(
        id.as_str());
        return Ok(
            Registration {
                dirs,
                paths: Vec::new(),
                manifest: None,
                outcome: StepOutcome { human, json },
            },
        );
    }
    let binary = match binary {
        Ok(b) => b,
        Err(e) => {
            return Err(e);
        },
    };
    let paths = manifest_paths_in(&dirs);
    let json = Json::object().with("manifest_paths", Json::strings(&paths)).with(
        "binary_path",
        Json::string(binary.as_str()),
    ).with("extension_id", Json::string(id.as_str())).with("auto_detected", Json::Bool(auto));
    let note = if auto {
        " (extension id auto-detected)"
    } else {
        ""
    };
    let human = "✓ NM host registered".to_owned().concat(note).concat(
        manifest_text_lines(&paths).as_str(),
    ).concat("\n  Binary:   ").concat(binary.as_str()).concat("\n  Extension: ").concat(
        id.as_str(),
    ).concat(
        "\n\n  Once the unpacked extension is loaded in your browser, verify with:\n    webpilot --browser status",
    );
    let manifest = Some(manifest(id.as_str(), binary.as_str()));
    Ok(Registration { dirs, paths, manifest, outcome: StepOutcome { human, json } })
}

/// Decides what `setup nm-host` takes.
pub fn run(
    args: NmHostArgs,
    own: &str,
    home: Option<&str>,
    macos: bool,
    present: &Vec<bool>,
    binary: Result<String, WebPilotError>,
) -> (r: Result<Registration, WebPilotError>)
    ensures
        error::outcome(r) == registration(
            model::maybe(args.extension_id),
            own@,
            model::maybe(home),
            macos,
            present@,
            error::outcome(binary),
        ),
{
    install(args.extension_id, own, home, macos, present, binary)
}

/// What is written is where what is written is looked for: every manifest that registering writes
/// is among the paths of all manifests.
pub proof fn law_written_manifests_are_found(
    requested: Option<Seq<char>>,
    own: Seq<char>,
    home: Option<Seq<char>>,
    macos: bool,
    present: Seq<bool>,
    binary: Result<Seq<char>, ErrorView>,
)
    ensures
        match registration(requested, own, home, macos, present, binary) {
            Ok(r) => manifest_paths(home, macos) is Ok && forall|i: int|
                0 <= i < r.paths.len() ==> manifest_paths(home, macos)->Ok_0.contains(
                    #[trigger] r.paths[i],
                ),
            Err(_) => true,
        },
{
    if let Ok(r) = registration(requested, own, home, macos, present, binary) {
        let h = home_of(home)->Ok_0;
        let all = candidate_dirs(h, macos);
        let found = manifest_paths(home, macos)->Ok_0;
        lemma_targets(all, present);
        assert forall|i: int| 0 <= i < r.paths.len() implies found.contains(
            #[trigger] r.paths[i],
        ) by {
            let k = choose|k: int| 0 <= k < all.len() && all[k] == r.dirs[i];
            assert(all.contains(r.dirs[i]));
            assert(found[k] == r.paths[i]);
        }
    }
}

/// Only what a browser is installed for is a target.
proof fn lemma_targets(dirs: Seq<Seq<char>>, present: Seq<bool>)
    ensures
        forall|i: int|
            0 <= i < targets(dirs, present).len() ==> dirs.contains(
                #[trigger] targets(dirs, present)[i],
            ),
    decreases dirs.len(),
{
    if dirs.len() > 0 {
        let front = dirs.drop_last();
        lemma_targets(front, present);
        assert forall|i: int| 0 <= i < targets(dirs, present).len() implies dirs.contains(
            #[trigger] targets(dirs, present)[i],
        ) by {
            if i < targets(front, present).len() {
                let t = targets(front, present)[i];
                assert(front.contains(t));
                let k = choose|k: int| 0 <= k < front.len() && front[k] == t;
                assert(dirs[k] == t);
            } else {
                assert(dirs[dirs.len() - 1] == dirs.last());
            }
        }
    }
}

/// The id of an extension is 32 letters from `a` to `p`, and nothing else is one.
pub proof fn law_extension_ids(id: &str, r: bool)
    requires
        call_ensures(is_valid_extension_id, (id,), r),
    ensures
        r <==> id@.len() == 32 && forall|i: int|
            0 <= i < id@.len() ==> 'a' <= #[trigger] id@[i] <= 'p',
{
    lemma_id(id@);
}

/// The manifest lets the browser start the program for one extension and no other.
pub proof fn law_manifests_name_one_extension(id: &str, binary: &str, r: Json)
    requires
        call_ensures(manifest, (id, binary), r),
    ensures
        r@.get("name"@) == Some(JsonView::Str("com.webpilot.host"@)),
        r@.get("path"@) == Some(JsonView::Str(binary@)),
        r@.get("type"@) == Some(JsonView::Str("stdio"@)),
        r@.get("allowed_origins"@) matches Some(JsonView::Array(list)) && list.len() == 1 && list[0]
            == JsonView::Str("chrome-extension://"@ + id@ + "/"@),
{
    reveal_strlit("name");
    reveal_strlit("description");
    reveal_strlit("path");
    reveal_strlit("type");
    reveal_strlit("allowed_origins");
    assert("name"@.len() == 4);
    assert("description"@.len() == 11);
    assert("path"@.len() == 4);
    assert("type"@.len() == 4);
    assert("allowed_origins"@.len() == 15);
    assert("name"@[0] != "path"@[0]);
    assert("name"@[0] != "type"@[0]);
    assert("path"@[0] != "type"@[0]);
}

/// The extension that is authorised is the one asked for, without the white space around it, or the
/// program's own where none is; what is no id is refused and told.
pub proof fn law_the_asked_for_is_authorised(
    requested: Option<String>,
    own: &str,
    id: Seq<char>,
    r: Result<(String, bool), WebPilotError>,
)
    requires
        requested matches Some(asked) ==> id == text::trimmed(asked@),
        requested is None ==> id == own@,
        call_ensures(extension_to_authorise, (requested, own), r),
    ensures
        r is Ok <==> id.len() == 32 && forall|i: int|
            0 <= i < id.len() ==> 'a' <= #[trigger] id[i] <= 'p',
        r matches Ok((taken, auto)) ==> taken@ == id && (auto <==> requested is None),
        r matches Err(e) ==> (e matches WebPilotError::InvalidArgument { detail } && text::holds(
            detail@,
            id,
        )),
{
    lemma_id(id);
    text::lemma_part(
        "invalid extension ID: "@,
        id,
        " — expected 32 characters in [a-p], found at chrome://extensions with Developer mode enabled"@,
    );
}

proof fn lemma_id(id: Seq<char>)
    ensures
        is_extension_id(id) <==> id.len() == 32 && forall|i: int|
            0 <= i < id.len() ==> 'a' <= #[trigger] id[i] <= 'p',
{
    if is_extension_id(id) {
        assert forall|i: int| 0 <= i < id.len() implies 'a' <= #[trigger] id[i] <= 'p' by {
            assert(is_id_char(id[i]));
        }
    }
    if id.len() == 32 && forall|i: int| 0 <= i < id.len() ==> 'a' <= #[trigger] id[i] <= 'p' {
        assert forall|i: int| 0 <= i < id.len() implies is_id_char(#[trigger] id[i]) by {
        }
    }
}

/// Every browser has a directory of manifests of its own: in its profile directory, under the
/// directory that the system keeps them in.
pub proof fn law_browsers_have_their_directories(
    home: &str,
    macos: bool,
    profiles: Vec<String>,
    dirs: Vec<String>,
    i: int,
)
    requires
        home@.len() > 0,
        home@.last() != '/',
        call_ensures(nm_profile_dirs, (home, macos), profiles),
        call_ensures(nm_candidate_dirs_under, (home, macos), dirs),
        0 <= i < dirs@.len(),
    ensures
        dirs@.len() == profiles@.len(),
        dirs@.len() == if macos {
            8int
        } else {
            6int
        },
        dirs@[i]@ == profiles@[i]@ + "/NativeMessagingHosts"@,
        text::has_prefix(
            profiles@[i]@,
            home@ + (if macos {
                "/Library/Application Support/"@
            } else {
                "/.config/"@
            }),
        ),
        !macos ==> profiles@[0]@ == home@ + "/.config/google-chrome"@ && profiles@[3]@ == home@
            + "/.config/chromium"@,
        macos ==> profiles@[0]@ == home@ + "/Library/Application Support/Google/Chrome"@
            && profiles@[5]@ == home@ + "/Library/Application Support/Chromium"@,
{
    text::lemma_texts_index(profiles@);
    text::lemma_texts_index(dirs@);
    reveal_strlit("/");
    reveal_strlit("Library");
    reveal_strlit("Application Support");
    reveal_strlit(".config");
    reveal_strlit("NativeMessagingHosts");
    reveal_strlit("/NativeMessagingHosts");
    reveal_strlit("/Library/Application Support/");
    reveal_strlit("/.config/");
    reveal_strlit("google-chrome");
    reveal_strlit("/.config/google-chrome");
    reveal_strlit("chromium");
    reveal_strlit("/.config/chromium");
    reveal_strlit("Google/Chrome");
    reveal_strlit("/Library/Application Support/Google/Chrome");
    reveal_strlit("Chromium");
    reveal_strlit("/Library/Application Support/Chromium");
    let root = profiles_root(home@, macos);
    let base = home@ + (if macos {
        "/Library/Application Support/"@
    } else {
        "/.config/"@
    });
    assert(root.push('/') =~= base) by {
        assert("/"@ =~= seq!['/']);
    }
    assert(root.last() != '/');
    lemma_browsers(macos, i);
    let name = browsers(macos)[i];
    let profile = profile_dirs(home@, macos)[i];
    assert(text::texts(profiles@)[i] == profiles@[i]@);
    assert(text::texts(dirs@)[i] == dirs@[i]@);
    assert(profile =~= base + name);
    text::lemma_front(base, name);
    assert(profile.last() == name.last());
    assert("/"@ + "NativeMessagingHosts"@ =~= "/NativeMessagingHosts"@);
    assert(dirs@[i]@ =~= profile + ("/"@ + "NativeMessagingHosts"@));
    if macos {
        lemma_browsers(macos, 0);
        lemma_browsers(macos, 5);
        assert(text::texts(profiles@)[0] == profiles@[0]@ && text::texts(profiles@)[5]
            == profiles@[5]@);
        assert(profiles@[0]@ =~= home@ + "/Library/Application Support/Google/Chrome"@);
        assert(profiles@[5]@ =~= home@ + "/Library/Application Support/Chromium"@);
    } else {
        lemma_browsers(macos, 0);
        lemma_browsers(macos, 3);
        assert(text::texts(profiles@)[0] == profiles@[0]@ && text::texts(profiles@)[3]
            == profiles@[3]@);
        assert(profiles@[0]@ =~= home@ + "/.config/google-chrome"@);
        assert(profiles@[3]@ =~= home@ + "/.config/chromium"@);
    }
}

/// No browser's profile directory is named from the root or with a slash behind it.
proof fn lemma_browsers(macos: bool, i: int)
    requires
        0 <= i < browsers(macos).len(),
    ensures
        browsers(macos)[i].len() > 0,
        browsers(macos)[i][0] != '/',
        browsers(macos)[i].last() != '/',
{
    reveal_strlit("Google/Chrome");
    reveal_strlit("Google/Chrome Beta");
    reveal_strlit("Google/Chrome Dev");
    reveal_strlit("Google/Chrome Canary");
    reveal_strlit("Google/Chrome for Testing");
    reveal_strlit("Chromium");
    reveal_strlit("BraveSoftware/Brave-Browser");
    reveal_strlit("Microsoft Edge");
    reveal_strlit("google-chrome");
    reveal_strlit("google-chrome-beta");
    reveal_strlit("google-chrome-unstable");
    reveal_strlit("chromium");
    reveal_strlit("microsoft-edge");
}

/// A manifest goes where a browser is installed, in the order of the candidates, and nowhere else.
pub proof fn law_targets_are_what_is_installed(dirs: Seq<Seq<char>>, present: Seq<bool>) -> (at: Seq<int>)
    requires
        present.len() == dirs.len(),
    ensures
        at.len() == targets(dirs, present).len(),
        forall|i: int|
            0 <= i < at.len() ==> 0 <= #[trigger] at[i] < dirs.len() && targets(dirs, present)[i]
                == dirs[at[i]],
        forall|i: int, j: int| 0 <= i < j < at.len() ==> at[i] < at[j],
        forall|k: int| 0 <= k < dirs.len() ==> (#[trigger] present[k] <==> at.contains(k)),
{
    lemma_targets_at(dirs, present)
}

proof fn lemma_targets_at(dirs: Seq<Seq<char>>, present: Seq<bool>) -> (at: Seq<int>)
    requires
        present.len() >= dirs.len(),
    ensures
        at.len() == targets(dirs, present).len(),
        forall|i: int|
            0 <= i < at.len() ==> 0 <= #[trigger] at[i] < dirs.len() && targets(dirs, present)[i]
                == dirs[at[i]],
        forall|i: int, j: int| 0 <= i < j < at.len() ==> at[i] < at[j],
        forall|k: int| 0 <= k < dirs.len() ==> (#[trigger] present[k] <==> at.contains(k)),
    decreases dirs.len(),
{
    if dirs.len() == 0 {
        Seq::empty()
    } else {
        let before = lemma_targets_at(dirs.drop_last(), present);
        let last = dirs.len() - 1;
        let at = if present[last] {
            before.push(last)
        } else {
            before
        };
        assert forall|k: int| 0 <= k < dirs.len() implies (#[trigger] present[k] <==> at.contains(
            k,
        )) by {
            if k < last {
                if before.contains(k) {
                    let i = choose|i: int| 0 <= i < before.len() && before[i] == k;
                    assert(at[i] == k);
                }
                if at.contains(k) {
                    let i = choose|i: int| 0 <= i < at.len() && at[i] == k;
                    assert(before[i] == k);
                }
            } else {
                if present[k] {
                    assert(at[before.len() as int] == k);
                } else if at.contains(k) {
                    let i = choose|i: int| 0 <= i < at.len() && at[i] == k;
                    assert(before[i] < last);
                }
            }
        }
        at
    }
}

/// What registering writes and reports: where a browser is installed, the manifest for the extension
/// and this program, into each of its directories under the host's name; where none is, nothing. The
/// report names what was written, and the extension either way.
pub proof fn law_the_host_is_registered(
    args: NmHostArgs,
    own: &str,
    home: Option<&str>,
    macos: bool,
    present: Vec<bool>,
    binary: Result<String, WebPilotError>,
    r: Result<Registration, WebPilotError>,
    id: Result<(String, bool), WebPilotError>,
)
    requires
        call_ensures(run, (args, own, home, macos, &present, binary), r),
        call_ensures(extension_to_authorise, (args.extension_id, own), id),
    ensures
        id is Err ==> r is Err && r->Err_0@ == id->Err_0@,
        id is Ok && (home is None || home->0@.len() == 0) ==> r is Err,
        r matches Ok(reg) ==> {
            let extension = id->Ok_0.0@;
            &&& id is Ok
            &&& home is Some
            &&& reg.paths@.len() == (if reg.manifest is Some {
                reg.dirs@.len()
            } else {
                0
            })
            &&& reg.manifest is Some <==> reg.dirs@.len() > 0
            &&& reg.manifest is Some ==> binary is Ok
            &&& forall|i: int|
                0 <= i < reg.paths@.len() ==> text::has_prefix(
                    (#[trigger] reg.paths@[i])@,
                    reg.dirs@[i]@,
                ) && text::has_suffix(reg.paths@[i]@, "com.webpilot.host.json"@)
            &&& reg.manifest matches Some(written) ==> {
                &&& written@.get("path"@) == Some(JsonView::Str(binary->Ok_0@))
                &&& written@.get("name"@) == Some(JsonView::Str("com.webpilot.host"@))
                &&& written@.get("allowed_origins"@) matches Some(JsonView::Array(list))
                    && list.len() == 1 && list[0] == JsonView::Str(
                    "chrome-extension://"@ + extension + "/"@,
                )
                &&& reg.outcome.json@.get("binary_path"@) == Some(JsonView::Str(binary->Ok_0@))
            }
            &&& reg.outcome.json@.get("extension_id"@) == Some(JsonView::Str(extension))
            &&& reg.outcome.json@.get("auto_detected"@) == Some(JsonView::Bool(id->Ok_0.1))
            &&& reg.outcome.json@.get("manifest_paths"@) matches Some(JsonView::Array(list))
                && list.len() == reg.paths@.len() && forall|i: int|
                0 <= i < reg.paths@.len() ==> #[trigger] list[i] == JsonView::Str(
                    reg.paths@[i]@,
                )
        },
{
    reveal_strlit("name");
    reveal_strlit("description");
    reveal_strlit("path");
    reveal_strlit("type");
    reveal_strlit("allowed_origins");
    assert("name"@.len() == 4);
    assert("description"@.len() == 11);
    assert("path"@.len() == 4);
    assert("type"@.len() == 4);
    assert("allowed_origins"@.len() == 15);
    assert("name"@[0] != "path"@[0]);
    assert("name"@[0] != "type"@[0]);
    assert("path"@[0] != "type"@[0]);
    reveal_strlit("manifest_paths");
    reveal_strlit("binary_path");
    reveal_strlit("extension_id");
    reveal_strlit("auto_detected");
    assert("manifest_paths"@.len() == 14);
    assert("binary_path"@.len() == 11);
    assert("extension_id"@.len() == 12);
    assert("auto_detected"@.len() == 13);
    reveal_strlit("com.webpilot.host");
    reveal_strlit(".json");
    reveal_strlit("com.webpilot.host.json");
    assert("com.webpilot.host"@ + ".json"@ =~= "com.webpilot.host.json"@);
    if let Ok(reg) = r {
        text::lemma_texts_index(reg.paths@);
        text::lemma_texts_index(reg.dirs@);
        assert forall|i: int| 0 <= i < reg.paths@.len() implies text::has_prefix(
            (#[trigger] reg.paths@[i])@,
            reg.dirs@[i]@,
        ) && text::has_suffix(reg.paths@[i]@, "com.webpilot.host.json"@) by {
            assert(text::texts(reg.paths@)[i] == reg.paths@[i]@);
            assert(text::texts(reg.dirs@)[i] == reg.dirs@[i]@);
            lemma_joined_file(reg.dirs@[i]@, "com.webpilot.host.json"@);
        }
    }
}

proof fn lemma_joined_file(dir: Seq<char>, file: Seq<char>)
    requires
        file.len() > 0,
        file[0] != '/',
    ensures
        text::has_prefix(paths::joined(dir, file), dir),
        text::has_suffix(paths::joined(dir, file), file),
{
    let sep = if dir.len() == 0 || dir.last() == '/' {
        Seq::<char>::empty()
    } else {
        "/"@
    };
    assert(paths::joined(dir, file) =~= dir + sep + file);
    text::lemma_back(dir + sep, file);
    assert(paths::joined(dir, file) =~= dir + (sep + file));
    text::lemma_front(dir, sep + file);
}

/// The manifests that may be written, looked at or removed are those of every browser: one in each of
/// the directories of manifests, under the host's name. Without a home directory there are none.
pub proof fn law_manifests_are_where_browsers_look(
    home: &str,
    macos: bool,
    dirs: Vec<String>,
    r: Result<Vec<String>, WebPilotError>,
    none: Result<Vec<String>, WebPilotError>,
    i: int,
)
    requires
        home@.len() > 0,
        call_ensures(nm_candidate_dirs_under, (home, macos), dirs),
        call_ensures(nm_manifest_paths, (Some(home), macos), r),
        call_ensures(nm_manifest_paths, (None, macos), none),
        0 <= i < dirs@.len(),
    ensures
        none is Err,
        r matches Ok(paths) && paths@.len() == dirs@.len() && text::has_prefix(
            paths@[i]@,
            dirs@[i]@,
        ) && text::has_suffix(paths@[i]@, "com.webpilot.host.json"@),
{
    reveal_strlit("com.webpilot.host");
    reveal_strlit(".json");
    reveal_strlit("com.webpilot.host.json");
    assert("com.webpilot.host"@ + ".json"@ =~= "com.webpilot.host.json"@);
    text::lemma_texts_index(dirs@);
    assert(text::texts(dirs@)[i] == dirs@[i]@);
    if let Ok(paths) = r {
        text::lemma_texts_index(paths@);
        assert(text::texts(paths@)[i] == paths@[i]@);
        lemma_joined_file(dirs@[i]@, "com.webpilot.host.json"@);
    }
}

/// Of the candidates those are targets whose browser is installed: each of them, and no other.
pub proof fn law_targets_are_among_the_candidates(
    dirs: Vec<String>,
    present: Vec<bool>,
    r: Vec<String>,
) -> (at: Seq<int>)
    requires
        present@.len() == dirs@.len(),
        call_ensures(nm_target_dirs, (&dirs, &present), r),
    ensures
        at.len() == r@.len(),
        forall|i: int|
            0 <= i < at.len() ==> 0 <= #[trigger] at[i] < dirs@.len() && r@[i]@ == dirs@[at[i]]@,
        forall|i: int, j: int| 0 <= i < j < at.len() ==> at[i] < at[j],
        forall|k: int| 0 <= k < dirs@.len() ==> (#[trigger] present@[k] <==> at.contains(k)),
{
    text::lemma_texts_index(dirs@);
    text::lemma_texts_index(r@);
    let all = text::texts(dirs@);
    let at = law_targets_are_what_is_installed(all, present@);
    assert forall|i: int| 0 <= i < at.len() implies 0 <= #[trigger] at[i] < dirs@.len() && r@[i]@
        == dirs@[at[i]]@ by {
        assert(text::texts(r@)[i] == r@[i]@);
        assert(all[at[i]] == dirs@[at[i]]@);
    }
    at
}

} // verus!
