//! Centralized names of the application's data files and directories, and
//! the functions that build their paths. Paths are carried as strings.

use vstd::prelude::*;
use vstd::string::*;

use crate::text::push_char;

verus! {

// ── Application identity ─────────────────────────────────────────

pub const APP_ID: &'static str = "com.vibelights.app";

// ── Leaf filenames ───────────────────────────────────────────────

pub const SETTINGS_FILE: &'static str = "settings.json";
pub const CREDENTIALS_FILE: &'static str = ".credentials";
pub const CHAT_FILE: &'static str = "chat.json";
pub const AGENT_CHATS_FILE: &'static str = "agent-chats.json";
pub const PORT_FILE: &'static str = ".vibelights-port";
pub const PROFILE_FILE: &'static str = "profile.json";
pub const FIXTURES_FILE: &'static str = "fixtures.json";
pub const SETUP_FILE: &'static str = "setup.json";
pub const LAYOUT_FILE: &'static str = "layout.json";
pub const GLOBAL_LIBRARIES_FILE: &'static str = "libraries.json";
pub const DEPS_INSTALLED_MARKER: &'static str = ".deps_installed";

// ── Directory names ──────────────────────────────────────────────

pub const PROFILES_DIR: &'static str = "profiles";
pub const SEQUENCES_DIR: &'static str = "sequences";
pub const MEDIA_DIR: &'static str = "media";
pub const PYTHON_ENV_DIR: &'static str = "python_env";
pub const MODELS_DIR: &'static str = "models";
pub const SCRATCH_DIR: &'static str = ".scratch";

// ── Joining ──────────────────────────────────────────────────────

/// A single path component: non-empty, with no slash, backslash or colon.
pub open spec fn plain_component(s: Seq<char>) -> bool {
    s.len() > 0 && forall|i: int| 0 <= i < s.len() ==> s[i] != '/' && s[i] != '\\' && s[i] != ':'
}

/// A Windows verbatim path: one that starts with `\\?\`.
pub open spec fn verbatim(base: Seq<char>) -> bool {
    base.len() >= 4 && base[0] == '\\' && base[1] == '\\' && base[2] == '?' && base[3] == '\\'
}

/// What `r` is when it results from adjoining the component `name` to the
/// path `base` on any platform std supports: `name` itself for an empty
/// base, otherwise `base` followed by a separator (`/`, or `\` on Windows)
/// unless it already ends with one, then `name`. Stated for plain
/// components and for bases that are not Windows verbatim paths (std
/// normalises those when it adjoins) and do not end with a colon (a bare
/// Windows drive takes no separator).
pub open spec fn path_joined(base: Seq<char>, name: Seq<char>, r: Seq<char>) -> bool {
    plain_component(name) && !verbatim(base) ==> {
        &&& base.len() == 0 ==> r == name
        &&& base.len() > 0 && base.last() == '/' ==> r == base + name
        &&& base.len() > 0 && base.last() == '\\' ==> (r == base + name || r == base + seq!['/']
            + name)
        &&& base.len() > 0 && base.last() != '/' && base.last() != '\\' && base.last() != ':'
            ==> (r == base + seq!['/'] + name || r == base + seq!['\\'] + name)
    }
}

/// Adjoins `name` to `base` by calling std's `Path::join` and reading the
/// result back as a string. Trusted to adjoin as std's `PathBuf::push`
/// documents (see `path_joined`); for other inputs nothing is claimed.
#[verifier::external_body]
pub(crate) fn join_path(base: &str, name: &str) -> (r: String)
    ensures
        path_joined(base@, name@, r@),
{
    std::path::Path::new(base).join(name).to_string_lossy().into_owned()
}

/// std's `std::path::MAIN_SEPARATOR`: `/` on Unix, `\` on Windows.
#[verifier::external_body]
fn main_separator() -> (c: char)
    ensures
        c == '/' || c == '\\',
{
    std::path::MAIN_SEPARATOR
}

/// Whether paths whose primary separator is `separator` are Windows paths:
/// exactly when the separator is a backslash.
fn windows_paths(separator: char) -> (r: bool)
    ensures
        r == (separator == '\\'),
{
    separator == '\\'
}

// ── Config-dir functions (take app_config_dir) ───────────────────

/// The settings file in the app config directory.
pub fn settings_path(app_config_dir: &str) -> (r: String)
    ensures
        path_joined(app_config_dir@, SETTINGS_FILE@, r@),
{
    join_path(app_config_dir, SETTINGS_FILE)
}

/// The credentials file in the app config directory.
pub fn credentials_path(app_config_dir: &str) -> (r: String)
    ensures
        path_joined(app_config_dir@, CREDENTIALS_FILE@, r@),
{
    join_path(app_config_dir, CREDENTIALS_FILE)
}

/// The chat history file in the app config directory.
pub fn chat_file_path(app_config_dir: &str) -> (r: String)
    ensures
        path_joined(app_config_dir@, CHAT_FILE@, r@),
{
    join_path(app_config_dir, CHAT_FILE)
}

/// The agent chats file in the app config directory.
pub fn agent_chats_file_path(app_config_dir: &str) -> (r: String)
    ensures
        path_joined(app_config_dir@, AGENT_CHATS_FILE@, r@),
{
    join_path(app_config_dir, AGENT_CHATS_FILE)
}

/// The file holding the sidecar port, in the app config directory.
pub fn port_file_path(app_config_dir: &str) -> (r: String)
    ensures
        path_joined(app_config_dir@, PORT_FILE@, r@),
{
    join_path(app_config_dir, PORT_FILE)
}

/// The Python environment directory in the app config directory.
pub fn python_env_dir(app_config_dir: &str) -> (r: String)
    ensures
        path_joined(app_config_dir@, PYTHON_ENV_DIR@, r@),
{
    join_path(app_config_dir, PYTHON_ENV_DIR)
}

/// The models directory in the app config directory.
pub fn models_dir(app_config_dir: &str) -> (r: String)
    ensures
        path_joined(app_config_dir@, MODELS_DIR@, r@),
{
    join_path(app_config_dir, MODELS_DIR)
}

/// `r` is `base/first/second`, each step adjoined as `path_joined` states.
pub open spec fn joined2(base: Seq<char>, first: Seq<char>, second: Seq<char>, r: Seq<char>) -> bool {
    exists|mid: Seq<char>| path_joined(base, first, mid) && path_joined(mid, second, r)
}

/// `r` is `base/first/second/third`, each step adjoined as `path_joined` states.
pub open spec fn joined3(
    base: Seq<char>,
    first: Seq<char>,
    second: Seq<char>,
    third: Seq<char>,
    r: Seq<char>,
) -> bool {
    exists|mid: Seq<char>| joined2(base, first, second, mid) && path_joined(mid, third, r)
}

/// The virtual environment's interpreter: `Scripts/python.exe` under the
/// environment directory on Windows, `bin/python` elsewhere.
pub fn python_exe(app_config_dir: &str) -> (r: String)
    ensures
        joined3(app_config_dir@, PYTHON_ENV_DIR@, "Scripts"@, "python.exe"@, r@) || joined3(
            app_config_dir@,
            PYTHON_ENV_DIR@,
            "bin"@,
            "python"@,
            r@,
        ),
{
    let venv = python_env_dir(app_config_dir);
    if windows_paths(main_separator()) {
        let scripts = join_path(venv.as_str(), "Scripts");
        let r = join_path(scripts.as_str(), "python.exe");
        assert(joined2(app_config_dir@, PYTHON_ENV_DIR@, "Scripts"@, scripts@));
        r
    } else {
        let bin = join_path(venv.as_str(), "bin");
        let r = join_path(bin.as_str(), "python");
        assert(joined2(app_config_dir@, PYTHON_ENV_DIR@, "bin"@, bin@));
        r
    }
}

/// The marker file showing that Python dependencies are installed.
pub fn deps_installed_marker(app_config_dir: &str) -> (r: String)
    ensures
        joined2(app_config_dir@, PYTHON_ENV_DIR@, DEPS_INSTALLED_MARKER@, r@),
{
    let venv = python_env_dir(app_config_dir);
    join_path(venv.as_str(), DEPS_INSTALLED_MARKER)
}

/// The scratch directory in the data directory.
pub fn scratch_dir(data_dir: &str) -> (r: String)
    ensures
        path_joined(data_dir@, SCRATCH_DIR@, r@),
{
    join_path(data_dir, SCRATCH_DIR)
}

// ── Resource-dir functions (take resource_dir) ───────────────────

/// The bundled `uv` binary: `resources/uv.exe` on Windows, `resources/uv` elsewhere.
pub fn uv_binary_path(resource_dir: &str) -> (r: String)
    ensures
        joined2(resource_dir@, "resources"@, "uv.exe"@, r@) || joined2(
            resource_dir@,
            "resources"@,
            "uv"@,
            r@,
        ),
{
    let res = join_path(resource_dir, "resources");
    if windows_paths(main_separator()) {
        join_path(res.as_str(), "uv.exe")
    } else {
        join_path(res.as_str(), "uv")
    }
}

/// The Python sidecar script among the bundled resources.
pub fn sidecar_script_path(resource_dir: &str) -> (r: String)
    ensures
        joined3(resource_dir@, "resources"@, "python"@, "sidecar.py"@, r@),
{
    let res = join_path(resource_dir, "resources");
    let py = join_path(res.as_str(), "python");
    assert(joined2(resource_dir@, "resources"@, "python"@, py@));
    join_path(py.as_str(), "sidecar.py")
}

/// The Python requirements file among the bundled resources.
pub fn requirements_path(resource_dir: &str) -> (r: String)
    ensures
        joined3(resource_dir@, "resources"@, "python"@, "requirements.txt"@, r@),
{
    let res = join_path(resource_dir, "resources");
    let py = join_path(res.as_str(), "python");
    assert(joined2(resource_dir@, "resources"@, "python"@, py@));
    join_path(py.as_str(), "requirements.txt")
}

// ── Global data-dir functions ─────────────────────────────────────

/// The global libraries file in the data directory.
pub fn global_libraries_path(data_dir: &str) -> (r: String)
    ensures
        path_joined(data_dir@, GLOBAL_LIBRARIES_FILE@, r@),
{
    join_path(data_dir, GLOBAL_LIBRARIES_FILE)
}

// ── Data-dir functions (take data_dir + slugs) ───────────────────

/// The profiles directory in the data directory.
pub fn profiles_dir(data_dir: &str) -> (r: String)
    ensures
        path_joined(data_dir@, PROFILES_DIR@, r@),
{
    join_path(data_dir, PROFILES_DIR)
}

/// A profile's directory.
pub fn profile_dir(data_dir: &str, slug: &str) -> (r: String)
    ensures
        joined2(data_dir@, PROFILES_DIR@, slug@, r@),
{
    let p = profiles_dir(data_dir);
    join_path(p.as_str(), slug)
}

/// A profile's sequences directory.
pub fn sequences_dir(data_dir: &str, profile_slug: &str) -> (r: String)
    ensures
        joined3(data_dir@, PROFILES_DIR@, profile_slug@, SEQUENCES_DIR@, r@),
{
    let p = profile_dir(data_dir, profile_slug);
    join_path(p.as_str(), SEQUENCES_DIR)
}

/// A profile's media directory.
pub fn media_dir(data_dir: &str, profile_slug: &str) -> (r: String)
    ensures
        joined3(data_dir@, PROFILES_DIR@, profile_slug@, MEDIA_DIR@, r@),
{
    let p = profile_dir(data_dir, profile_slug);
    join_path(p.as_str(), MEDIA_DIR)
}

/// `<seq_slug>.json` inside the profile's sequences directory.
pub fn sequence_file(data_dir: &str, profile_slug: &str, seq_slug: &str) -> (r: String)
    ensures
        exists|dir: Seq<char>|
            joined3(data_dir@, PROFILES_DIR@, profile_slug@, SEQUENCES_DIR@, dir)
                && path_joined(dir, seq_slug@ + ".json"@, r@),
{
    let dir = sequences_dir(data_dir, profile_slug);
    let mut file = String::from_str(seq_slug);
    file.append(".json");
    join_path(dir.as_str(), file.as_str())
}

// ── Analysis functions (take media_dir) ──────────────────────────

/// `<filename>.analysis.json` inside the media directory.
pub fn analysis_path(media_dir: &str, filename: &str) -> (r: String)
    ensures
        path_joined(media_dir@, filename@ + ".analysis.json"@, r@),
{
    let mut file = String::from_str(filename);
    file.append(".analysis.json");
    join_path(media_dir, file.as_str())
}

/// `s` with every `.` replaced by `-`.
pub open spec fn dots_to_dashes(s: Seq<char>) -> Seq<char> {
    s.map_values(|c: char| if c == '.' { '-' } else { c })
}

/// The stems directory of a media file: `stems/<filename with dots as dashes>`
/// inside the media directory.
pub fn stems_dir(media_dir: &str, filename: &str) -> (r: String)
    ensures
        joined2(media_dir@, "stems"@, dots_to_dashes(filename@), r@),
{
    let n = filename.unicode_len();
    let mut slug = String::new();
    let mut i: usize = 0;
    while i < n
        invariant
            n == filename@.len(),
            i <= n,
            slug@ == dots_to_dashes(filename@.take(i as int)),
        decreases n - i,
    {
        let c = filename.get_char(i);
        push_char(&mut slug, if c == '.' { '-' } else { c });
        i += 1;
        assert(slug@ =~= dots_to_dashes(filename@.take(i as int)));
    }
    assert(filename@.take(n as int) =~= filename@);
    let stems = join_path(media_dir, "stems");
    let r = join_path(stems.as_str(), slug.as_str());
    assert(joined2(media_dir@, "stems"@, dots_to_dashes(filename@), r@));
    r
}

} // verus!
