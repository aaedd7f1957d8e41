//! XDG base-directory resolution for config, models and the IPC socket.

use vstd::prelude::*;
use crate::text;

verus! {

/// Directory name used under every XDG base directory.
pub const APP_DIR: &'static str = "stt-linux";

/// Why a path could not be determined.
#[derive(Debug, Clone, Copy, PartialEq, Eq, Structural)]
pub enum PathError {
    /// There is no home directory to start from.
    NoBaseDirectories,
    /// A base directory has a name that is not Unicode.
    NotUnicode,
    /// `XDG_RUNTIME_DIR` is unset.
    NoRuntimeDirectory,
}

impl PathError {
    /// The error in words.
    pub open spec fn text(self) -> Seq<char> {
        match self {
            PathError::NoBaseDirectories => "could not determine XDG base directories"@,
            PathError::NotUnicode => "an XDG base directory is not valid Unicode"@,
            PathError::NoRuntimeDirectory =>
                "XDG_RUNTIME_DIR is unset; cannot place the control socket safely"@,
        }
    }

    /// The error in words.
    pub fn message(&self) -> (r: String)
        ensures
            r@ == self.text(),
    {
        match self {
            PathError::NoBaseDirectories => "could not determine XDG base directories".to_owned(),
            PathError::NotUnicode => "an XDG base directory is not valid Unicode".to_owned(),
            PathError::NoRuntimeDirectory =>
                "XDG_RUNTIME_DIR is unset; cannot place the control socket safely".to_owned(),
        }
    }
}

// ---------------------------------------------------------------- joining

/// Whether a path starts at the root.
pub open spec fn absolute(path: Seq<char>) -> bool {
    path.len() > 0 && path[0] == '/'
}

/// `path` seen from `base`: an absolute path replaces the base, and a
/// separator is added unless the base is empty or ends in one.
pub open spec fn joined(base: Seq<char>, path: Seq<char>) -> Seq<char> {
    if absolute(path) {
        path
    } else if base.len() == 0 || base.last() == '/' {
        base + path
    } else {
        base + "/"@ + path
    }
}

/// Whether a path starts at the root.
pub fn is_absolute(path: &str) -> (r: bool)
    ensures
        r == absolute(path@),
{
    let chars = text::chars_of(path);
    chars.len() > 0 && chars[0] == '/'
}

/// `path` seen from `base`.
pub fn join(base: &str, path: &str) -> (r: String)
    ensures
        r@ == joined(base@, path@),
{
    if is_absolute(path) {
        return path.to_owned();
    }
    let chars = text::chars_of(base);
    let mut r = base.to_owned();
    if chars.len() > 0 && chars[chars.len() - 1] != '/' {
        r.append("/");
    }
    r.append(path);
    r
}

/// An absolute path is not rebased.
pub proof fn law_absolute_is_not_rebased(base: Seq<char>, path: Seq<char>)
    requires
        absolute(path),
    ensures
        joined(base, path) == path,
{
}

/// A relative path stays below the directory it is joined to.
pub proof fn law_relative_stays_below(base: Seq<char>, path: Seq<char>)
    requires
        !absolute(path),
    ensures
        text::has_prefix(joined(base, path), base),
        has_suffix(joined(base, path), path),
{
    let j = joined(base, path);
    assert(j.take(base.len() as int) =~= base);
    assert(j.skip(j.len() - path.len()) =~= path);
}

/// Whether `s` ends with `suffix`.
pub open spec fn has_suffix(s: Seq<char>, suffix: Seq<char>) -> bool {
    suffix.len() <= s.len() && s.skip(s.len() - suffix.len()) == suffix
}

// ---------------------------------------------------------------- directories

/// Whether a name is used as a directory name unchanged: not empty, and made
/// of ASCII lowercase letters, digits and hyphens.
pub open spec fn plain_name(name: Seq<char>) -> bool {
    &&& name.len() > 0
    &&& forall|i: int|
        0 <= i < name.len() ==> ('a' <= #[trigger] name[i] <= 'z' || '0' <= name[i] <= '9'
            || name[i] == '-')
}

/// Whether a directory, if there is one, ends in a name.
pub open spec fn ends_in(dir: Option<String>, name: Seq<char>) -> bool {
    match dir {
        Some(d) => has_suffix(d@, "/"@ + name),
        None => true,
    }
}

/// `directories::ProjectDirs::from`: the configuration and the data directory
/// of an application, which end in its name where that is plain. A directory
/// that is not Unicode is left out.
///
/// Which directories they are depends on the environment and on the user
/// database, and there are none without a home directory; that is left unsaid.
#[verifier::external_body]
fn project_dirs(application: &str) -> (r: Option<(Option<String>, Option<String>)>)
    ensures
        match r {
            Some(dirs) => plain_name(application@) ==> ends_in(dirs.0, application@) && ends_in(
                dirs.1,
                application@,
            ),
            None => true,
        },
{
    let dirs = directories::ProjectDirs::from("", "", application)?;
    let config = dirs.config_dir().to_str().map(str::to_owned);
    let data = dirs.data_dir().to_str().map(str::to_owned);
    Some((config, data))
}

proof fn lemma_app_dir_is_plain()
    ensures
        plain_name(APP_DIR@),
{
    reveal_strlit("stt-linux");
}

/// Joining a relative path to a directory appends it to whatever the directory
/// ends in.
pub proof fn lemma_suffix_joins(base: Seq<char>, suffix: Seq<char>, path: Seq<char>)
    requires
        has_suffix(base, suffix),
        suffix.len() > 0,
        suffix.last() != '/',
        !absolute(path),
    ensures
        has_suffix(joined(base, path), suffix + "/"@ + path),
{
    assert(base.skip(base.len() - suffix.len()).last() == base.last());
    let j = joined(base, path);
    assert(j =~= base + "/"@ + path);
    assert(j.skip(j.len() - (suffix + "/"@ + path).len()) =~= base.skip(base.len() - suffix.len())
        + "/"@ + path);
}

/// The configuration directory, out of the configuration and the data
/// directory, as far as they are Unicode.
pub fn config_dir_of(dirs: Option<(Option<String>, Option<String>)>) -> (r: Result<
    String,
    PathError,
>)
    ensures
        r == match dirs {
            Some((Some(config), _)) => Ok::<String, PathError>(config),
            Some((None, _)) => Err::<String, PathError>(PathError::NotUnicode),
            None => Err::<String, PathError>(PathError::NoBaseDirectories),
        },
{
    match dirs {
        Some((Some(config), _)) => Ok(config),
        Some((None, _)) => Err(PathError::NotUnicode),
        None => Err(PathError::NoBaseDirectories),
    }
}

/// The data directory, out of the configuration and the data directory, as far
/// as they are Unicode.
pub fn data_dir_of(dirs: Option<(Option<String>, Option<String>)>) -> (r: Result<
    String,
    PathError,
>)
    ensures
        r == match dirs {
            Some((_, Some(data))) => Ok::<String, PathError>(data),
            Some((_, None)) => Err::<String, PathError>(PathError::NotUnicode),
            None => Err::<String, PathError>(PathError::NoBaseDirectories),
        },
{
    match dirs {
        Some((_, Some(data))) => Ok(data),
        Some((_, None)) => Err(PathError::NotUnicode),
        None => Err(PathError::NoBaseDirectories),
    }
}

/// `~/.config/stt-linux/`
pub fn config_dir() -> (r: Result<String, PathError>)
    ensures
        match r {
            Ok(p) => has_suffix(p@, "/"@ + APP_DIR@),
            Err(e) => e is NoBaseDirectories || e is NotUnicode,
        },
{
    proof {
        lemma_app_dir_is_plain();
    }
    config_dir_of(project_dirs(APP_DIR))
}

/// The configuration file in the configuration directory `dir`.
pub fn config_file_in(dir: &str) -> (r: String)
    ensures
        r@ == joined(dir@, "config.toml"@),
{
    join(dir, "config.toml")
}

/// `~/.config/stt-linux/config.toml`
pub fn config_file() -> (r: Result<String, PathError>)
    ensures
        match r {
            Ok(p) => has_suffix(p@, "/"@ + APP_DIR@ + "/"@ + "config.toml"@),
            Err(e) => e is NoBaseDirectories || e is NotUnicode,
        },
{
    match config_dir() {
        Ok(dir) => {
            proof {
                reveal_strlit("/");
                reveal_strlit("stt-linux");
                reveal_strlit("config.toml");
                lemma_suffix_joins(dir@, "/"@ + APP_DIR@, "config.toml"@);
            }
            Ok(config_file_in(dir.as_str()))
        },
        Err(e) => Err(e),
    }
}

/// `~/.local/share/stt-linux/`
pub fn data_dir() -> (r: Result<String, PathError>)
    ensures
        match r {
            Ok(p) => has_suffix(p@, "/"@ + APP_DIR@),
            Err(e) => e is NoBaseDirectories || e is NotUnicode,
        },
{
    proof {
        lemma_app_dir_is_plain();
    }
    data_dir_of(project_dirs(APP_DIR))
}

/// The directory for models in the data directory `dir`.
pub fn models_dir_in(dir: &str) -> (r: String)
    ensures
        r@ == joined(dir@, "models"@),
{
    join(dir, "models")
}

/// `~/.local/share/stt-linux/models/`
pub fn models_dir() -> (r: Result<String, PathError>)
    ensures
        match r {
            Ok(p) => has_suffix(p@, "/"@ + APP_DIR@ + "/"@ + "models"@),
            Err(e) => e is NoBaseDirectories || e is NotUnicode,
        },
{
    match data_dir() {
        Ok(dir) => {
            proof {
                reveal_strlit("/");
                reveal_strlit("stt-linux");
                reveal_strlit("models");
                lemma_suffix_joins(dir@, "/"@ + APP_DIR@, "models"@);
            }
            Ok(models_dir_in(dir.as_str()))
        },
        Err(e) => Err(e),
    }
}

/// Where the control socket is, given the runtime directory.
pub open spec fn socket_place(runtime_dir: Option<Seq<char>>) -> Result<Seq<char>, PathError> {
    match runtime_dir {
        Some(dir) => Ok(joined(dir, APP_DIR@ + ".sock"@)),
        None => Err(PathError::NoRuntimeDirectory),
    }
}

/// The daemon's control socket, given the value of `XDG_RUNTIME_DIR`.
///
/// It lives there so the kernel cleans it up on logout and so it inherits that
/// directory's 0700 permissions: the socket accepts commands that inject
/// keystrokes, so it must never be world-writable, and there is no other place
/// for it.
pub fn socket_path(runtime_dir: Option<&str>) -> (r: Result<String, PathError>)
    ensures
        match socket_place(text::opt_str_view(runtime_dir)) {
            Ok(place) => r matches Ok(p) && p@ == place,
            Err(e) => r == Err::<String, PathError>(e),
        },
{
    match runtime_dir {
        Some(dir) => {
            let mut name = APP_DIR.to_owned();
            name.append(".sock");
            Ok(join(dir, name.as_str()))
        },
        None => Err(PathError::NoRuntimeDirectory),
    }
}

/// Between a directory and what lies in it stands exactly one separator: it is
/// added where the directory does not end in one, and only there. Seen from
/// nowhere a path is itself.
pub proof fn law_one_separator_is_between(base: Seq<char>, path: Seq<char>)
    requires
        !absolute(path),
    ensures
        base.len() == 0 ==> joined(base, path) == path,
        base.len() > 0 ==> joined(base, path)[joined(base, path).len() - path.len() - 1] == '/',
        base.len() > 0 && base.last() == '/' ==> joined(base, path).len() == base.len()
            + path.len(),
        base.len() > 0 && base.last() != '/' ==> joined(base, path).len() == base.len()
            + path.len() + 1,
{
    reveal_strlit("/");
    assert(base.len() == 0 ==> base + path =~= path);
}

/// The control socket lives in the runtime directory, under the application's
/// name, and nowhere without one.
pub proof fn law_socket_lives_in_the_runtime_directory(dir: Seq<char>)
    ensures
        socket_place(Some(dir)) is Ok,
        text::has_prefix(socket_place(Some(dir))->Ok_0, dir),
        has_suffix(socket_place(Some(dir))->Ok_0, "stt-linux.sock"@),
        socket_place(Some(dir))->Ok_0.len() <= dir.len() + 1 + "stt-linux.sock"@.len(),
        socket_place(None) == Err::<Seq<char>, PathError>(PathError::NoRuntimeDirectory),
{
    reveal_strlit("stt-linux");
    reveal_strlit(".sock");
    reveal_strlit("stt-linux.sock");
    reveal_strlit("/");
    let name = APP_DIR@ + ".sock"@;
    assert(name =~= "stt-linux.sock"@);
    law_relative_stays_below(dir, name);
}

} // verus!
