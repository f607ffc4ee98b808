//! Where the helper finds Herdr's socket and keeps its files. Paths are byte
//! strings, separated by `/`.

use vstd::prelude::*;
use vstd::utf8::{
    char_u32_cast, encode_scalar, encode_utf8, encode_utf8_decode_utf8, has_width_1_encoding, is_ascii_chars,
    is_ascii_chars_encode_utf8, leading_byte_width_1, leading_byte_width_2, leading_byte_width_3,
    leading_byte_width_4,
};

use crate::text::{hexadecimal, hexadecimal_digits, hexadecimal_tells_apart, hexadecimal_text};

verus! {

/// The environment variables that the helper reads. A variable that names a
/// path is kept as its bytes, and one that is not set is absent.
#[derive(Debug)]
pub struct Environment {
    /// `HOME`.
    pub home: Option<Vec<u8>>,
    /// `HERDR_SOCKET_PATH`.
    pub socket_path: Option<Vec<u8>>,
    /// `HERDR_SESSION`.
    pub session: Option<Vec<u8>>,
    /// `XDG_CACHE_HOME`.
    pub cache_home: Option<Vec<u8>>,
    /// `HERDR_ACTIVE_PANE_ID`.
    pub active_pane_id: Option<String>,
    /// `HERDR_PANE_ID`.
    pub pane_id: Option<String>,
    /// `HERDR_ACTIVE_TAB_ID`, where it is valid Unicode.
    pub active_tab_id: Option<String>,
    /// `HERDR_ACTIVE_PANE_CWD`, where it is valid Unicode.
    pub active_pane_cwd: Option<String>,
}

/// A path with a part put behind it. An absolute part takes the place of the
/// whole path.
pub open spec fn joined(base: Seq<u8>, part: Seq<u8>) -> Seq<u8> {
    if part.len() > 0 && part[0] == 47u8 {
        part
    } else if base.len() == 0 || base.last() == 47u8 {
        base + part
    } else {
        base.push(47u8) + part
    }
}

/// A path with a named part put behind it.
pub open spec fn joined_name(base: Seq<u8>, name: Seq<char>) -> Seq<u8> {
    joined(base, encode_utf8(name))
}

fn append_bytes(base: &mut Vec<u8>, part: &[u8])
    ensures
        final(base)@ == old(base)@ + part@,
{
    let ghost before = base@;
    let mut i: usize = 0;
    while i < part.len()
        invariant
            i <= part.len(),
            base@ == before + part@.take(i as int),
        decreases part.len() - i,
    {
        base.push(part[i]);
        proof {
            assert(before + part@.take(i + 1) =~= (before + part@.take(i as int)).push(
                part@[i as int],
            ));
        }
        i = i + 1;
    }
    proof {
        assert(part@.take(i as int) =~= part@);
    }
}

/// A path with a part put behind it.
pub fn join_path(base: &[u8], part: &[u8]) -> (r: Vec<u8>)
    ensures
        r@ == joined(base@, part@),
{
    let mut out: Vec<u8> = Vec::new();
    if part.len() > 0 && part[0] == 47 {
        append_bytes(&mut out, part);
        proof {
            assert(out@ =~= part@);
        }
        return out;
    }
    append_bytes(&mut out, base);
    if base.len() > 0 && base[base.len() - 1] != 47 {
        out.push(47);
    }
    append_bytes(&mut out, part);
    proof {
        assert(out@ =~= joined(base@, part@));
    }
    out
}

/// A path with a named part put behind it.
pub fn join_name(base: &[u8], name: &str) -> (r: Vec<u8>)
    ensures
        r@ == joined_name(base@, name@),
{
    join_path(base, name.as_bytes())
}

fn copy_bytes(bytes: &[u8]) -> (r: Vec<u8>)
    ensures
        r@ == bytes@,
{
    let mut out: Vec<u8> = Vec::new();
    append_bytes(&mut out, bytes);
    proof {
        assert(out@ =~= bytes@);
    }
    out
}

/// The home directory.
pub open spec fn home_dir_of(env: Environment) -> Result<Seq<u8>, Seq<char>> {
    match env.home {
        Some(home) => Ok(home@),
        None => Err("HOME is not set"@),
    }
}

/// The home directory.
pub fn home_dir(env: &Environment) -> (r: Result<Vec<u8>, String>)
    ensures
        match r {
            Ok(path) => home_dir_of(*env) == Ok::<Seq<u8>, Seq<char>>(path@),
            Err(message) => home_dir_of(*env) == Err::<Seq<u8>, Seq<char>>(message@),
        },
{
    match &env.home {
        Some(home) => Ok(copy_bytes(home.as_slice())),
        None => Err("HOME is not set".to_owned()),
    }
}

/// The path of Herdr's socket: the one that the environment names, else the one
/// of the named session, else the default one.
pub open spec fn socket_path_of(env: Environment) -> Result<Seq<u8>, Seq<char>> {
    match (env.socket_path, home_dir_of(env)) {
        (Some(path), _) => Ok(path@),
        (None, Err(message)) => Err(message),
        (None, Ok(home)) => {
            let herdr = joined_name(joined_name(home, ".config"@), "herdr"@);
            match env.session {
                Some(session) => Ok(
                    joined_name(joined(joined_name(herdr, "sessions"@), session@), "herdr.sock"@),
                ),
                None => Ok(joined_name(herdr, "herdr.sock"@)),
            }
        },
    }
}

/// The path of Herdr's socket.
pub fn socket_path(env: &Environment) -> (r: Result<Vec<u8>, String>)
    ensures
        match r {
            Ok(path) => socket_path_of(*env) == Ok::<Seq<u8>, Seq<char>>(path@),
            Err(message) => socket_path_of(*env) == Err::<Seq<u8>, Seq<char>>(message@),
        },
{
    if let Some(path) = &env.socket_path {
        return Ok(copy_bytes(path.as_slice()));
    }
    let home = match home_dir(env) {
        Ok(home) => home,
        Err(message) => return Err(message),
    };
    let config = join_name(home.as_slice(), ".config");
    let herdr = join_name(config.as_slice(), "herdr");
    if let Some(session) = &env.session {
        let sessions = join_name(herdr.as_slice(), "sessions");
        let named = join_path(sessions.as_slice(), session.as_slice());
        return Ok(join_name(named.as_slice(), "herdr.sock"));
    }
    Ok(join_name(herdr.as_slice(), "herdr.sock"))
}

/// The hash of a byte string: from 5381 on, each byte is added to 33 times the
/// hash so far, in 32 bits.
pub open spec fn hash_value(bytes: Seq<u8>) -> nat
    decreases bytes.len(),
{
    if bytes.len() == 0 {
        5381
    } else {
        (hash_value(bytes.drop_last()) * 33 + bytes.last() as nat) % 0x1_0000_0000
    }
}

/// The hash of a byte string in eight hexadecimal digits.
pub open spec fn stable_hash_of(bytes: Seq<u8>) -> Seq<char> {
    hexadecimal(hash_value(bytes), 8)
}

/// The hash of a byte string in eight hexadecimal digits.
pub fn stable_hash(bytes: &[u8]) -> (r: String)
    ensures
        r@ == stable_hash_of(bytes@),
{
    let mut hash: u32 = 5381;
    let mut i: usize = 0;
    while i < bytes.len()
        invariant
            i <= bytes.len(),
            hash == hash_value(bytes@.take(i as int)),
        decreases bytes.len() - i,
    {
        proof {
            assert(bytes@.take(i + 1).drop_last() =~= bytes@.take(i as int));
        }
        hash = hash.wrapping_mul(33).wrapping_add(bytes[i] as u32);
        i = i + 1;
    }
    proof {
        assert(bytes@.take(i as int) =~= bytes@);
    }
    hexadecimal_text(hash, 8)
}

/// The directory of caches: `XDG_CACHE_HOME`, else `.cache` in the home
/// directory. The home directory must be known either way.
pub open spec fn cache_base_of(env: Environment) -> Result<Seq<u8>, Seq<char>> {
    match (home_dir_of(env), env.cache_home) {
        (Err(message), _) => Err(message),
        (Ok(_), Some(cache)) => Ok(cache@),
        (Ok(home), None) => Ok(joined_name(home, ".cache"@)),
    }
}

/// The directory of the helper's files for the session: the hash of the
/// socket's path tells sessions apart.
pub open spec fn session_cache_dir_of(env: Environment) -> Result<Seq<u8>, Seq<char>> {
    match (cache_base_of(env), socket_path_of(env)) {
        (Err(message), _) => Err(message),
        (Ok(_), Err(message)) => Err(message),
        (Ok(base), Ok(socket)) => Ok(
            joined_name(
                joined_name(joined_name(base, "herdr.nvim"@), "sessions"@),
                stable_hash_of(socket),
            ),
        ),
    }
}

/// The directory of the helper's files for the session.
pub fn session_cache_dir(env: &Environment) -> (r: Result<Vec<u8>, String>)
    ensures
        match r {
            Ok(path) => session_cache_dir_of(*env) == Ok::<Seq<u8>, Seq<char>>(path@),
            Err(message) => session_cache_dir_of(*env) == Err::<Seq<u8>, Seq<char>>(message@),
        },
{
    let home = match home_dir(env) {
        Ok(home) => home,
        Err(message) => return Err(message),
    };
    let base = match &env.cache_home {
        Some(cache) => copy_bytes(cache.as_slice()),
        None => join_name(home.as_slice(), ".cache"),
    };
    let socket = match socket_path(env) {
        Ok(socket) => socket,
        Err(message) => return Err(message),
    };
    let hash = stable_hash(socket.as_slice());
    let own = join_name(base.as_slice(), "herdr.nvim");
    let sessions = join_name(own.as_slice(), "sessions");
    Ok(join_name(sessions.as_slice(), hash.as_str()))
}

/// The path of the layout cache.
pub open spec fn cache_path_of(env: Environment) -> Result<Seq<u8>, Seq<char>> {
    match session_cache_dir_of(env) {
        Ok(dir) => Ok(joined_name(dir, "layout-cache.json"@)),
        Err(message) => Err(message),
    }
}

/// The path of the layout cache.
pub fn cache_path(env: &Environment) -> (r: Result<Vec<u8>, String>)
    ensures
        match r {
            Ok(path) => cache_path_of(*env) == Ok::<Seq<u8>, Seq<char>>(path@),
            Err(message) => cache_path_of(*env) == Err::<Seq<u8>, Seq<char>>(message@),
        },
{
    match session_cache_dir(env) {
        Ok(dir) => Ok(join_name(dir.as_slice(), "layout-cache.json")),
        Err(message) => Err(message),
    }
}

/// The directory of the marker files.
pub open spec fn nvim_panes_dir_of(env: Environment) -> Result<Seq<u8>, Seq<char>> {
    match session_cache_dir_of(env) {
        Ok(dir) => Ok(joined_name(dir, "panes"@)),
        Err(message) => Err(message),
    }
}

/// The directory of the marker files.
pub fn nvim_panes_dir(env: &Environment) -> (r: Result<Vec<u8>, String>)
    ensures
        match r {
            Ok(path) => nvim_panes_dir_of(*env) == Ok::<Seq<u8>, Seq<char>>(path@),
            Err(message) => nvim_panes_dir_of(*env) == Err::<Seq<u8>, Seq<char>>(message@),
        },
{
    match session_cache_dir(env) {
        Ok(dir) => Ok(join_name(dir.as_slice(), "panes")),
        Err(message) => Err(message),
    }
}

/// The path of the session file, beside the socket.
pub open spec fn session_file_of(socket_dir: Option<Seq<u8>>) -> Result<Seq<u8>, Seq<char>> {
    match socket_dir {
        Some(dir) => Ok(joined_name(dir, "session.json"@)),
        None => Err("Herdr socket path has no parent"@),
    }
}

/// The path of the session file, in the directory of the socket where there is
/// one.
pub fn session_file(socket_dir: Option<Vec<u8>>) -> (r: Result<Vec<u8>, String>)
    ensures
        ({
            let dir = match socket_dir {
                Some(dir) => Some(dir@),
                None => None,
            };
            match r {
                Ok(path) => session_file_of(dir) == Ok::<Seq<u8>, Seq<char>>(path@),
                Err(message) => session_file_of(dir) == Err::<Seq<u8>, Seq<char>>(message@),
            }
        }),
{
    match socket_dir {
        Some(dir) => Ok(join_name(dir.as_slice(), "session.json")),
        None => Err("Herdr socket path has no parent".to_owned()),
    }
}

/// The hash of a byte string fits into 32 bits, and is written with eight
/// hexadecimal digits.
pub proof fn stable_hash_has_eight_digits(bytes: Seq<u8>)
    ensures
        hash_value(bytes) < 0x1_0000_0000,
        stable_hash_of(bytes).len() == 8,
        forall|i: int|
            0 <= i < 8 ==> {
                let c = #[trigger] stable_hash_of(bytes)[i];
                '0' <= c <= '9' || 'a' <= c <= 'f'
            },
{
    hexadecimal_digits(hash_value(bytes), 8);
}

/// Byte strings with different hashes have different texts of them.
pub proof fn stable_hash_tells_apart(a: Seq<u8>, b: Seq<u8>)
    requires
        hash_value(a) != hash_value(b),
    ensures
        stable_hash_of(a) != stable_hash_of(b),
{
    if stable_hash_of(a) == stable_hash_of(b) {
        stable_hash_has_eight_digits(a);
        stable_hash_has_eight_digits(b);
        assert(vstd::arithmetic::power::pow(16, 8) == 0x1_0000_0000) by {
            reveal_with_fuel(vstd::arithmetic::power::pow, 9);
        }
        hexadecimal_tells_apart(hash_value(a), hash_value(b), 8);
    }
}

/// The layout cache and the markers of a session lie in the directory of the
/// session.
pub proof fn session_files_lie_together(env: Environment)
    ensures
        match session_cache_dir_of(env) {
            Ok(dir) => {
                &&& cache_path_of(env) == Ok::<Seq<u8>, Seq<char>>(
                    joined_name(dir, "layout-cache.json"@),
                )
                &&& nvim_panes_dir_of(env) == Ok::<Seq<u8>, Seq<char>>(joined_name(dir, "panes"@))
            },
            Err(message) => {
                &&& cache_path_of(env) == Err::<Seq<u8>, Seq<char>>(message)
                &&& nvim_panes_dir_of(env) == Err::<Seq<u8>, Seq<char>>(message)
            },
        },
{
}

proof fn hash_as_bytes(bytes: Seq<u8>)
    ensures
        ({
            let text = stable_hash_of(bytes);
            let encoded = encode_utf8(text);
            &&& encoded.len() == 8
            &&& forall|i: int| 0 <= i < 8 ==> #[trigger] encoded[i] == text[i] as u8
            &&& encoded[0] != 47u8
            &&& encoded[7] != 47u8
        }),
{
    stable_hash_has_eight_digits(bytes);
    let text = stable_hash_of(bytes);
    assert(is_ascii_chars(text));
    is_ascii_chars_encode_utf8(text);
    assert(text[0] != '/');
    assert(text[7] != '/');
}

proof fn hashes_as_bytes_differ(a: Seq<u8>, b: Seq<u8>)
    requires
        hash_value(a) != hash_value(b),
    ensures
        encode_utf8(stable_hash_of(a)) != encode_utf8(stable_hash_of(b)),
{
    stable_hash_tells_apart(a, b);
    hash_as_bytes(a);
    hash_as_bytes(b);
    let x = stable_hash_of(a);
    let y = stable_hash_of(b);
    stable_hash_has_eight_digits(a);
    stable_hash_has_eight_digits(b);
    if encode_utf8(x) == encode_utf8(y) {
        assert forall|i: int| 0 <= i < 8 implies x[i] == y[i] by {
            assert(encode_utf8(x)[i] == x[i] as u8);
            assert(encode_utf8(y)[i] == y[i] as u8);
        }
        assert(x =~= y);
    }
}

proof fn joined_keeps_apart(a: Seq<u8>, b: Seq<u8>, part: Seq<u8>)
    requires
        a.len() == b.len(),
        a.len() > 0,
        a.last() != 47u8,
        b.last() != 47u8,
        a != b,
        part.len() == 0 || part[0] != 47u8,
    ensures
        joined(a, part) != joined(b, part),
{
    if joined(a, part) == joined(b, part) {
        assert(joined(a, part).take(a.len() as int) =~= a);
        assert(joined(b, part).take(a.len() as int) =~= b);
    }
}

proof fn hashed_dirs_differ(above: Seq<u8>, a: Seq<u8>, b: Seq<u8>)
    requires
        hash_value(a) != hash_value(b),
    ensures
        ({
            let da = joined_name(above, stable_hash_of(a));
            let db = joined_name(above, stable_hash_of(b));
            &&& da != db
            &&& da.len() == db.len()
            &&& da.len() > 0
            &&& da.last() != 47u8
            &&& db.last() != 47u8
        }),
{
    hash_as_bytes(a);
    hash_as_bytes(b);
    hashes_as_bytes_differ(a, b);
    let ea = encode_utf8(stable_hash_of(a));
    let eb = encode_utf8(stable_hash_of(b));
    let da = joined(above, ea);
    let db = joined(above, eb);
    assert(da.len() == db.len());
    assert(da.skip(da.len() - 8) =~= ea);
    assert(db.skip(db.len() - 8) =~= eb);
    assert(da.last() == ea[7]);
    assert(db.last() == eb[7]);
}

proof fn file_names_are_relative()
    ensures
        encode_utf8("layout-cache.json"@)[0] != 47u8,
        encode_utf8("panes"@)[0] != 47u8,
{
    reveal_strlit("layout-cache.json");
    reveal_strlit("panes");
    assert(is_ascii_chars("layout-cache.json"@));
    is_ascii_chars_encode_utf8("layout-cache.json"@);
    assert(is_ascii_chars("panes"@));
    is_ascii_chars_encode_utf8("panes"@);
}

/// Whether a name is not that of an absolute path.
pub open spec fn is_relative(name: Seq<char>) -> bool {
    name.len() == 0 || name[0] != '/'
}

proof fn relative_name_as_bytes(name: Seq<char>)
    requires
        is_relative(name),
    ensures
        encode_utf8(name).len() == 0 || encode_utf8(name)[0] != 47u8,
{
    if name.len() > 0 {
        let c = name[0] as u32;
        char_u32_cast(name[0], c);
        assert(encode_utf8(name)[0] == encode_scalar(c)[0]);
        assert(has_width_1_encoding(c) && c != 47u32 ==> leading_byte_width_1(c) != 47u8)
            by (bit_vector);
        assert(leading_byte_width_2(c) != 47u8) by (bit_vector);
        assert(leading_byte_width_3(c) != 47u8) by (bit_vector);
        assert(leading_byte_width_4(c) != 47u8) by (bit_vector);
    }
}

/// Different relative names in one directory have different paths.
pub proof fn names_have_their_own_paths(dir: Seq<u8>, a: Seq<char>, b: Seq<char>)
    requires
        is_relative(a),
        is_relative(b),
        joined_name(dir, a) == joined_name(dir, b),
    ensures
        a == b,
{
    relative_name_as_bytes(a);
    relative_name_as_bytes(b);
    let n: int = if dir.len() == 0 || dir.last() == 47u8 {
        dir.len() as int
    } else {
        dir.len() as int + 1
    };
    assert(joined_name(dir, a).skip(n) =~= encode_utf8(a));
    assert(joined_name(dir, b).skip(n) =~= encode_utf8(b));
    encode_utf8_decode_utf8(a);
    encode_utf8_decode_utf8(b);
}

/// Sessions with one directory of caches, whose sockets' paths have different
/// hashes, share no directory, no layout cache and no markers.
pub proof fn sessions_are_kept_apart(a: Environment, b: Environment)
    requires
        cache_base_of(a) == cache_base_of(b),
        session_cache_dir_of(a) is Ok,
        session_cache_dir_of(b) is Ok,
        hash_value(socket_path_of(a)->Ok_0) != hash_value(socket_path_of(b)->Ok_0),
    ensures
        session_cache_dir_of(a) != session_cache_dir_of(b),
        cache_path_of(a) != cache_path_of(b),
        nvim_panes_dir_of(a) != nvim_panes_dir_of(b),
{
    let sa = socket_path_of(a)->Ok_0;
    let sb = socket_path_of(b)->Ok_0;
    let base = cache_base_of(a)->Ok_0;
    let above = joined_name(joined_name(base, "herdr.nvim"@), "sessions"@);
    let da = session_cache_dir_of(a)->Ok_0;
    let db = session_cache_dir_of(b)->Ok_0;
    hashed_dirs_differ(above, sa, sb);
    file_names_are_relative();
    joined_keeps_apart(da, db, encode_utf8("layout-cache.json"@));
    joined_keeps_apart(da, db, encode_utf8("panes"@));
}

} // verus!
