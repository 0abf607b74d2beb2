//! Where flows, their lock files and their logs are kept. Paths are kept as
//! the bytes of the operating system's path, so a directory whose name is not
//! UTF-8 is kept as it is; the parts this tool adds are UTF-8 text.

use vstd::prelude::*;

use crate::error::AppError;
use vstd::utf8::encode_utf8;

verus! {

/// `part` appended to the path `base` as `Path::join` does on Unix: an
/// absolute `part` (one that starts with the byte `/`) replaces `base`;
/// otherwise a `/` goes between them unless `base` is empty or already ends
/// with one.
pub open spec fn path_join(base: Seq<u8>, part: Seq<u8>) -> Seq<u8> {
    if part.len() > 0 && part[0] == 47u8 {
        part
    } else if base.len() > 0 && base.last() != 47u8 {
        base + seq![47u8] + part
    } else {
        base + part
    }
}

/// The directory of flow configurations and lock files under the user's
/// configuration directory `base`.
pub open spec fn flow_dir(base: Seq<u8>) -> Seq<u8> {
    path_join(base, encode_utf8("flow"@))
}

/// The directory of flow logs under the user's configuration directory `base`.
pub open spec fn log_dir(base: Seq<u8>) -> Seq<u8> {
    path_join(flow_dir(base), encode_utf8("logs"@))
}

/// The configuration file of the flow `name`.
pub open spec fn config_file(base: Seq<u8>, name: Seq<char>) -> Seq<u8> {
    path_join(flow_dir(base), encode_utf8(name + ".json"@))
}

/// The lock file of the flow `name`.
pub open spec fn lock_file(base: Seq<u8>, name: Seq<char>) -> Seq<u8> {
    path_join(flow_dir(base), encode_utf8(name + ".lock"@))
}

/// The log file of the flow `name`.
pub open spec fn log_file(base: Seq<u8>, name: Seq<char>) -> Seq<u8> {
    path_join(log_dir(base), encode_utf8(name + ".log"@))
}

/// `part` appended to the path `base`.
pub fn join_path(base: &[u8], part: &[u8]) -> (r: Vec<u8>)
    ensures
        r@ == path_join(base@, part@),
{
    if part.len() > 0 && part[0] == 47u8 {
        return vstd::slice::slice_to_vec(part);
    }
    let mut r = vstd::slice::slice_to_vec(base);
    if base.len() > 0 && base[base.len() - 1] != 47u8 {
        r.push(47u8);
    }
    let ghost start = r@;
    let mut i: usize = 0;
    while i < part.len()
        invariant
            i <= part@.len(),
            r@ == start + part@.subrange(0, i as int),
        decreases part@.len() - i,
    {
        r.push(part[i]);
        i = i + 1;
        assert(r@ =~= start + part@.subrange(0, i as int));
    }
    assert(part@.subrange(0, part@.len() as int) =~= part@);
    r
}

/// The user's configuration directory, as `dirs::config_dir` finds it
/// (`$XDG_CONFIG_HOME` or `~/.config` on Linux), as the bytes of the path
/// (`OsString::into_encoded_bytes`). It depends on the environment, so nothing
/// is stated of it.
#[verifier::external_body]
fn user_config_dir() -> Option<Vec<u8>> {
    match dirs::config_dir() {
        Some(p) => Some(p.into_os_string().into_encoded_bytes()),
        None => None,
    }
}

/// The error reported when the user has no configuration directory.
pub open spec fn no_config_dir(e: AppError) -> bool {
    e matches AppError::User(m) && m@ == "Could not find config directory"@
}

/// The bytes of `name` followed by `suffix`.
fn suffixed(name: &str, suffix: &str) -> (r: Vec<u8>)
    ensures
        r@ == encode_utf8(name@ + suffix@),
{
    let mut t = name.to_owned();
    t.append(suffix);
    t.as_str().as_bytes_vec()
}

/// The flow directory under the configuration directory `base`.
pub fn config_dir_in(base: &[u8]) -> (r: Vec<u8>)
    ensures
        r@ == flow_dir(base@),
{
    join_path(base, "flow".as_bytes())
}

/// The log directory under the configuration directory `base`.
pub fn log_dir_in(base: &[u8]) -> (r: Vec<u8>)
    ensures
        r@ == log_dir(base@),
{
    let dir = config_dir_in(base);
    join_path(dir.as_slice(), "logs".as_bytes())
}

/// The configuration file of `name` under the configuration directory `base`.
pub fn config_path_in(base: &[u8], name: &str) -> (r: Vec<u8>)
    ensures
        r@ == config_file(base@, name@),
{
    let dir = config_dir_in(base);
    let file = suffixed(name, ".json");
    join_path(dir.as_slice(), file.as_slice())
}

/// The lock file of `name` under the configuration directory `base`.
pub fn lock_path_in(base: &[u8], name: &str) -> (r: Vec<u8>)
    ensures
        r@ == lock_file(base@, name@),
{
    let dir = config_dir_in(base);
    let file = suffixed(name, ".lock");
    join_path(dir.as_slice(), file.as_slice())
}

/// The log file of `name` under the configuration directory `base`.
pub fn log_path_in(base: &[u8], name: &str) -> (r: Vec<u8>)
    ensures
        r@ == log_file(base@, name@),
{
    let dir = log_dir_in(base);
    let file = suffixed(name, ".log");
    join_path(dir.as_slice(), file.as_slice())
}

/// The user's configuration directory, or the error that there is none.
fn base_dir() -> (r: Result<Vec<u8>, AppError>)
    ensures
        r matches Err(e) ==> no_config_dir(e),
{
    match user_config_dir() {
        Some(b) => Ok(b),
        None => Err(AppError::User("Could not find config directory".to_owned())),
    }
}

/// The directory that holds the flow configurations and lock files.
pub fn get_config_dir() -> (r: Result<Vec<u8>, AppError>)
    ensures
        r matches Ok(p) ==> exists|base: Seq<u8>| p@ == flow_dir(base),
        r matches Err(e) ==> no_config_dir(e),
{
    let base = base_dir()?;
    Ok(config_dir_in(base.as_slice()))
}

/// The directory that holds the flow logs.
pub fn get_log_dir() -> (r: Result<Vec<u8>, AppError>)
    ensures
        r matches Ok(p) ==> exists|base: Seq<u8>| p@ == log_dir(base),
        r matches Err(e) ==> no_config_dir(e),
{
    let base = base_dir()?;
    Ok(log_dir_in(base.as_slice()))
}

/// The configuration file of the flow `name`.
pub fn get_config_path(name: &str) -> (r: Result<Vec<u8>, AppError>)
    ensures
        r matches Ok(p) ==> exists|base: Seq<u8>| p@ == config_file(base, name@),
        r matches Err(e) ==> no_config_dir(e),
{
    let base = base_dir()?;
    Ok(config_path_in(base.as_slice(), name))
}

/// The lock file of the flow `name`.
pub fn get_lock_path(name: &str) -> (r: Result<Vec<u8>, AppError>)
    ensures
        r matches Ok(p) ==> exists|base: Seq<u8>| p@ == lock_file(base, name@),
        r matches Err(e) ==> no_config_dir(e),
{
    let base = base_dir()?;
    Ok(lock_path_in(base.as_slice(), name))
}

/// The log file of the flow `name`.
pub fn get_log_path(name: &str) -> (r: Result<Vec<u8>, AppError>)
    ensures
        r matches Ok(p) ==> exists|base: Seq<u8>| p@ == log_file(base, name@),
        r matches Err(e) ==> no_config_dir(e),
{
    let base = base_dir()?;
    Ok(log_path_in(base.as_slice(), name))
}

} // verus!
