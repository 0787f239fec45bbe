//! Where Pasteport keeps its state. Paths are Unix paths, as bytes; looking at
//! the environment and the file system is left to the caller.

use vstd::prelude::*;
use vstd::utf8::encode_utf8;
use crate::error::{Error, Result};
use crate::text::{append_chars, chars_of, slice_chars, string_of};
use crate::trusted::{blake3_hash_hex, blake3_hex};
use crate::view::{append_bytes, copy_bytes};

verus! {

/// A relative name below a directory.
pub open spec fn below(dir: Seq<u8>, name: Seq<u8>) -> Seq<u8> {
    if dir.len() == 0 || dir.last() == 47 {
        dir + name
    } else {
        dir.push(47) + name
    }
}

/// A relative name below a directory.
pub fn join(dir: &Vec<u8>, name: &str) -> (res: Vec<u8>)
    ensures
        res@ == below(dir@, encode_utf8(name@)),
{
    let mut path = copy_bytes(dir);
    let n = dir.len();
    if n > 0 && dir[n - 1] != 47 {
        path.push(47);
    }
    append_bytes(&mut path, name.as_bytes());
    path
}

/// The data directory: the override where there is one, else a directory below
/// the platform's own. Its name follows the platform's conventions: title case on
/// macOS, lower case elsewhere.
pub fn data_dir(explicit: Option<Vec<u8>>, base: Option<Vec<u8>>, macos: bool) -> (res: Result<
    Vec<u8>,
>)
    ensures
        match (explicit, base) {
            (Some(dir), _) => res is Ok && res->Ok_0@ == dir@,
            (None, Some(base)) => res is Ok && res->Ok_0@ == below(
                base@,
                encode_utf8(
                    if macos {
                        "Pasteport"@
                    } else {
                        "pasteport"@
                    },
                ),
            ),
            (None, None) => res is Err && res->Err_0 is NoDataDir,
        },
{
    if let Some(dir) = explicit {
        return Ok(dir);
    }
    match base {
        Some(base) => {
            let leaf = if macos {
                "Pasteport"
            } else {
                "pasteport"
            };
            Ok(join(&base, leaf))
        },
        None => Err(Error::NoDataDir),
    }
}

/// Where early builds kept the data directory.
pub fn legacy_dir(base: &Vec<u8>) -> (res: Vec<u8>)
    ensures
        res@ == below(base@, encode_utf8("com.pasteport.Pasteport"@)),
{
    join(base, "com.pasteport.Pasteport")
}

/// Whether to move a legacy data directory to the current location: only where
/// nothing is there yet, so it can never clobber anything.
pub fn adopts_legacy(current_exists: bool, legacy_is_dir: bool) -> (res: bool)
    ensures
        res == (!current_exists && legacy_is_dir),
{
    !current_exists && legacy_is_dir
}

pub fn database_path(data_dir: &Vec<u8>) -> (res: Vec<u8>)
    ensures
        res@ == below(data_dir@, encode_utf8("history.sqlite3"@)),
{
    join(data_dir, "history.sqlite3")
}

pub fn config_path(data_dir: &Vec<u8>) -> (res: Vec<u8>)
    ensures
        res@ == below(data_dir@, encode_utf8("config.toml"@)),
{
    join(data_dir, "config.toml")
}

/// Unix domain socket paths are bounded: 104 bytes on macOS and the BSDs, 108 on
/// Linux. Take the smaller, minus room for the closing zero.
pub const MAX_SOCKET_PATH_LEN: usize = 100;

/// Whether a socket path fits.
pub open spec fn fits(path: Seq<u8>) -> bool {
    path.len() <= MAX_SOCKET_PATH_LEN
}

/// Whether a socket path fits.
pub fn socket_path_fits(path: &Vec<u8>) -> (res: bool)
    ensures
        res == fits(path@),
{
    path.len() <= MAX_SOCKET_PATH_LEN
}

/// The socket beside the database.
pub open spec fn preferred_socket(data_dir: Seq<u8>) -> Seq<u8> {
    below(data_dir, encode_utf8("daemon.sock"@))
}

/// The name of the fallback socket: the beginning of a digest of the data
/// directory, so two data directories do not share a socket by name and the
/// mapping stays stable across restarts.
pub open spec fn fallback_name(data_dir: Seq<u8>) -> Seq<char> {
    blake3_hex(data_dir).take(16) + ".sock"@
}

/// Whether the socket needs the per-user runtime directory.
pub fn needs_runtime_dir(explicit: &Option<Vec<u8>>, data_dir: &Vec<u8>) -> (res: bool)
    ensures
        res == (explicit is None && !fits(preferred_socket(data_dir@))),
{
    explicit.is_none() && !socket_path_fits(&join(data_dir, "daemon.sock"))
}

/// Path of the daemon's control socket.
///
/// An explicit override is the caller's business, length included. Normally the
/// socket sits in the data directory, so it inherits the same private parent.
/// When that is deep enough that the path would be too long, it falls back to a
/// short path in the per-user runtime directory.
pub fn socket_path(explicit: Option<Vec<u8>>, data_dir: &Vec<u8>, runtime_dir: &Vec<u8>) -> (res:
    Result<Vec<u8>>)
    ensures
        match explicit {
            Some(path) => res is Ok && res->Ok_0@ == path@,
            None => {
                let preferred = preferred_socket(data_dir@);
                let short = below(runtime_dir@, encode_utf8(fallback_name(data_dir@)));
                if fits(preferred) {
                    res is Ok && res->Ok_0@ == preferred
                } else if fits(short) {
                    res is Ok && res->Ok_0@ == short
                } else {
                    res is Err && res->Err_0 is SocketPathTooLong
                        && res->Err_0->SocketPathTooLong_0@ == short
                }
            },
        },
        explicit is None && res is Ok ==> fits(res->Ok_0@),
{
    if let Some(path) = explicit {
        return Ok(path);
    }
    let preferred = join(data_dir, "daemon.sock");
    if socket_path_fits(&preferred) {
        return Ok(preferred);
    }
    let digest = blake3_hash_hex(data_dir);
    let mut name = slice_chars(&chars_of(digest.as_str()), 0, 16);
    assert(name@ == digest@.take(16));
    append_chars(&mut name, &chars_of(".sock"));
    let name = string_of(&name);
    let short = join(runtime_dir, name.as_str());
    if !socket_path_fits(&short) {
        return Err(Error::SocketPathTooLong(short));
    }
    Ok(short)
}

/// The per-user directory for runtime files, below the session's own or below the
/// system's directory for temporary files.
pub fn runtime_dir(session: Option<Vec<u8>>, temp: &Vec<u8>) -> (res: Vec<u8>)
    ensures
        res@ == below(
            match session {
                Some(dir) => dir@,
                None => temp@,
            },
            encode_utf8("pasteport"@),
        ),
{
    match session {
        Some(dir) => join(&dir, "pasteport"),
        None => join(temp, "pasteport"),
    }
}

/// Refuse to place a socket inside a directory another user owns.
pub fn check_owner(path: Vec<u8>, owner: u32, us: u32) -> (res: Result<()>)
    ensures
        match res {
            Ok(_) => owner == us,
            Err(e) => owner != us && e == Error::NotOurDirectory(path),
        },
{
    if owner != us {
        Err(Error::NotOurDirectory(path))
    } else {
        Ok(())
    }
}

/// The permission bits to set on a file or directory, unless it has them. Every
/// one is owner-only.
pub fn mode_to_set(is_dir: bool, mode: u32) -> (res: Option<u32>)
    ensures
        ({
            let wanted: u32 = if is_dir {
                0o700
            } else {
                0o600
            };
            res == if mode & 0o777 != wanted {
                Some(wanted)
            } else {
                None
            }
        }),
{
    let wanted: u32 = if is_dir {
        0o700
    } else {
        0o600
    };
    if mode & 0o777 != wanted {
        Some(wanted)
    } else {
        None
    }
}

/// Different names in one directory are different paths, so data directories
/// whose digests differ where the name is taken from have different fallback
/// sockets.
pub proof fn law_fallback_sockets_differ(a: Seq<u8>, b: Seq<u8>, runtime_dir: Seq<u8>)
    requires
        blake3_hex(a).len() >= 16,
        blake3_hex(b).len() >= 16,
        blake3_hex(a).take(16) != blake3_hex(b).take(16),
    ensures
        below(runtime_dir, encode_utf8(fallback_name(a))) != below(
            runtime_dir,
            encode_utf8(fallback_name(b)),
        ),
{
    let x = fallback_name(a);
    let y = fallback_name(b);
    if x == y {
        assert(x.take(16) == blake3_hex(a).take(16));
        assert(y.take(16) == blake3_hex(b).take(16));
    }
    vstd::utf8::encode_utf8_decode_utf8(x);
    vstd::utf8::encode_utf8_decode_utf8(y);
    let ex = encode_utf8(x);
    let ey = encode_utf8(y);
    let px = below(runtime_dir, ex);
    let py = below(runtime_dir, ey);
    let n = if runtime_dir.len() == 0 || runtime_dir.last() == 47 {
        runtime_dir.len() as int
    } else {
        (runtime_dir.len() + 1) as int
    };
    assert(px.skip(n) == ex);
    assert(py.skip(n) == ey);
}

/// A name below a directory is the directory, one slash and the name; a directory
/// that ends in a slash gets no second one.
pub proof fn law_names_stand_below_the_directory(dir: Seq<u8>, name: Seq<u8>)
    requires
        dir.len() > 0,
    ensures
        dir.last() != 47 ==> below(dir, name) == dir + seq![47u8] + name,
        dir.last() == 47 ==> below(dir, name) == dir + name,
        below(dir.push(47), name) == dir + seq![47u8] + name,
{
    assert(dir.push(47) + name =~= dir + seq![47u8] + name);
}

/// A socket path fits exactly where it has at most a hundred bytes.
pub proof fn law_socket_paths_are_bounded(path: Seq<u8>)
    ensures
        fits(path) <==> path.len() <= 100,
{
}

/// A fallback socket is named by sixteen characters of the digest and an ending,
/// the same for the same data directory.
pub proof fn law_fallback_names_are_short(data_dir: Seq<u8>)
    requires
        blake3_hex(data_dir).len() >= 16,
    ensures
        fallback_name(data_dir).len() == 21,
        fallback_name(data_dir).take(16) == blake3_hex(data_dir).take(16),
        fallback_name(data_dir).skip(16) == ".sock"@,
{
    reveal_strlit(".sock");
    assert(fallback_name(data_dir).take(16) =~= blake3_hex(data_dir).take(16));
    assert(fallback_name(data_dir).skip(16) =~= ".sock"@);
}

} // verus!
