use vstd::prelude::*;
use crate::error::{AppError, AppResult};
use crate::settings::ascii_lower;
use crate::text::{is_prefix, is_suffix};

verus! {

#[verifier::external_type_specification]
#[verifier::external_body]
pub struct ExPathBuf(std::path::PathBuf);

/// Qualifier of the application's identity for the platform's directories.
pub const QUALIFIER: &'static str = "com";
/// Organization of the application's identity.
pub const ORGANIZATION: &'static str = "FloatingMemo";
/// Name of the application.
pub const APPLICATION: &'static str = "FloatingMemo";
/// File name of the notes database inside the data directory.
pub const DB_FILE_NAME: &'static str = "notes.db";
/// Name of the backups directory inside the data directory.
pub const BACKUPS_DIR_NAME: &'static str = "backups";

/// A single relative path component: not empty, no separator or drive
/// colon, and neither `.` nor `..`.
pub open spec fn is_plain_component(name: Seq<char>) -> bool {
    &&& name.len() > 0
    &&& forall|k: int| 0 <= k < name.len() ==> name[k] != '/' && name[k] != '\\' && name[k] != ':'
    &&& name != seq!['.']
    &&& name != seq!['.', '.']
}

/// A path that does not start with the Windows verbatim prefix `\\?\`.
pub open spec fn is_ordinary_base(base: Seq<char>) -> bool {
    !is_prefix(seq!['\\', '\\', '?', '\\'], base)
}

/// `p` is `base` with the component `name` appended: right after it where
/// `base` is empty or ends in `/`, else after it and a separator.
pub open spec fn is_joined(p: Seq<char>, base: Seq<char>, name: Seq<char>) -> bool {
    &&& base.len() == 0 ==> p == name
    &&& (base.len() > 0 && base.last() == '/') ==> p == base + name
    &&& {
        ||| p == base + name
        ||| p == base + seq!['/'] + name
        ||| p == base + seq!['\\'] + name
    }
}

/// `Path::new(base).join(name)`, as text. For a plain relative component
/// std appends it to `base`, with the platform's separator in between
/// where `base` is not empty and does not end in one; which separator that
/// is (`/` or `\`) depends on the platform and is left open. Nothing is
/// stated for a base with the Windows verbatim prefix, which std rebuilds
/// from its components.
#[verifier::external_body]
fn join_path(base: &str, name: &str) -> (p: String)
    requires
        is_plain_component(name@),
    ensures
        is_ordinary_base(base@) ==> is_joined(p@, base@, name@),
{
    std::path::Path::new(base).join(name).to_string_lossy().into_owned()
}

/// `Path::new(base).join(name)` on a path that is not valid Unicode.
/// Nothing is stated: the path's content is the platform's own value, which
/// the library does not view.
#[verifier::external_body]
fn join_native(base: &std::path::PathBuf, name: &str) -> std::path::PathBuf {
    base.join(name)
}

/// A file-system path: as text where it is valid Unicode, else the
/// platform's own path value, carried unchanged.
pub enum DataPath {
    Text(String),
    Native(std::path::PathBuf),
}

/// A name made of ASCII letters and digits only.
pub open spec fn is_plain_ident(s: Seq<char>) -> bool {
    &&& s.len() > 0
    &&& forall|k: int|
        0 <= k < s.len() ==> {
            let u = #[trigger] s[k] as u32;
            (0x30 <= u <= 0x39) || (0x41 <= u <= 0x5a) || (0x61 <= u <= 0x7a)
        }
}

/// How the platform's data directory for a project ends, for names made of
/// ASCII letters and digits: the lower-cased application name (Linux and
/// the other Unix systems), `organization\application\data` (Windows), or
/// `qualifier.organization.application` (macOS).
pub open spec fn ends_as_project_data_dir(
    t: Seq<char>,
    qualifier: Seq<char>,
    organization: Seq<char>,
    application: Seq<char>,
) -> bool {
    ||| is_suffix(application.map_values(|c: char| ascii_lower(c)), t)
    ||| is_suffix(organization + seq!['\\'] + application + seq!['\\', 'd', 'a', 't', 'a'], t)
    ||| is_suffix(qualifier + seq!['.'] + organization + seq!['.'] + application, t)
}

/// The data directory that the platform gives the application
/// (`directories::ProjectDirs::from(..).data_dir()`): `None` where it gives
/// none; as text where the path is valid Unicode (`Path::to_str`), else as
/// the platform's path value. Where the three names are ASCII letters and
/// digits, a text path ends in the project directory that directories
/// builds from them (lin.rs, win.rs, mac.rs); the rest of the path comes from
/// the environment and is not stated.
#[verifier::external_body]
fn platform_data_dir(qualifier: &str, organization: &str, application: &str) -> (r: Option<
    DataPath,
>)
    ensures
        (is_plain_ident(qualifier@) && is_plain_ident(organization@) && is_plain_ident(
            application@,
        )) ==> (r matches Some(DataPath::Text(t)) ==> ends_as_project_data_dir(
            t@,
            qualifier@,
            organization@,
            application@,
        )),
{
    directories::ProjectDirs::from(qualifier, organization, application).map(
        |d| match d.data_dir().to_str() {
            Some(s) => DataPath::Text(s.to_owned()),
            None => DataPath::Native(d.data_dir().to_path_buf()),
        },
    )
}

/// The data directory from what the platform gave: the directory it named,
/// or `DataDirUnavailable` where it named none.
pub fn data_dir_from(found: Option<DataPath>) -> (r: AppResult<DataPath>)
    ensures
        match found {
            Some(d) => r == Ok::<DataPath, AppError>(d),
            None => r matches Err(e) && e is DataDirUnavailable,
        },
{
    match found {
        Some(d) => Ok(d),
        None => Err(AppError::DataDirUnavailable),
    }
}

proof fn lemma_identity_is_plain()
    ensures
        is_plain_ident(QUALIFIER@),
        is_plain_ident(ORGANIZATION@),
        is_plain_ident(APPLICATION@),
{
    reveal_strlit("com");
    reveal_strlit("FloatingMemo");
}

/// The application's data directory, as the platform names it for
/// `com`/`FloatingMemo`/`FloatingMemo`; `DataDirUnavailable` where the
/// platform gives none. A path that is valid Unicode comes as text and ends
/// in `floatingmemo`, `FloatingMemo\FloatingMemo\data` or
/// `com.FloatingMemo.FloatingMemo`; any other path comes as the platform's
/// value. The directory is not created here.
pub fn data_dir_location() -> (r: AppResult<DataPath>)
    ensures
        r matches Err(e) ==> e is DataDirUnavailable,
        r matches Ok(DataPath::Text(t)) ==> ends_as_project_data_dir(
            t@,
            QUALIFIER@,
            ORGANIZATION@,
            APPLICATION@,
        ),
{
    proof {
        lemma_identity_is_plain();
    }
    data_dir_from(platform_data_dir(QUALIFIER, ORGANIZATION, APPLICATION))
}

proof fn lemma_file_names_are_plain()
    ensures
        is_plain_component(DB_FILE_NAME@),
        is_plain_component(BACKUPS_DIR_NAME@),
{
    reveal_strlit("notes.db");
    reveal_strlit("backups");
    assert(DB_FILE_NAME@.len() == 8);
    assert(BACKUPS_DIR_NAME@.len() == 7);
}

/// `name` appended to the directory `dir`: as text where `dir` is text,
/// else as the platform's path value.
fn join_in(dir: &DataPath, name: &str) -> (p: DataPath)
    requires
        is_plain_component(name@),
    ensures
        match dir {
            DataPath::Text(d) => p matches DataPath::Text(t) && (is_ordinary_base(d@) ==> is_joined(
                t@,
                d@,
                name@,
            )),
            DataPath::Native(_) => p is Native,
        },
{
    match dir {
        DataPath::Text(d) => DataPath::Text(join_path(d.as_str(), name)),
        DataPath::Native(d) => DataPath::Native(join_native(d, name)),
    }
}

/// The path of the notes database in the data directory `data_dir`.
pub fn db_path(data_dir: &DataPath) -> (p: DataPath)
    ensures
        match data_dir {
            DataPath::Text(d) => p matches DataPath::Text(t) && (is_ordinary_base(d@) ==> is_joined(
                t@,
                d@,
                DB_FILE_NAME@,
            )),
            DataPath::Native(_) => p is Native,
        },
{
    proof {
        lemma_file_names_are_plain();
    }
    join_in(data_dir, DB_FILE_NAME)
}

/// The path of the backups directory in the data directory `data_dir`.
pub fn backups_path(data_dir: &DataPath) -> (p: DataPath)
    ensures
        match data_dir {
            DataPath::Text(d) => p matches DataPath::Text(t) && (is_ordinary_base(d@) ==> is_joined(
                t@,
                d@,
                BACKUPS_DIR_NAME@,
            )),
            DataPath::Native(_) => p is Native,
        },
{
    proof {
        lemma_file_names_are_plain();
    }
    join_in(data_dir, BACKUPS_DIR_NAME)
}

} // verus!
