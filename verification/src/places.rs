//! Where the helper's files lie. The laws are stated over the bytes of paths.

use vstd::prelude::*;
use vstd::utf8::{encode_utf8, is_ascii_chars, is_ascii_chars_encode_utf8};

use crate::paths::{
    cache_base_of, cache_path_of, hash_value, joined, joined_name, nvim_panes_dir_of,
    session_cache_dir_of, session_file_of, socket_path_of, stable_hash_has_eight_digits,
    stable_hash_of, Environment,
};
use crate::text::{hex_char, hexadecimal};

verus! {

/// Whether a path is one that a slash has to be put behind before a name.
pub open spec fn needs_slash(path: Seq<u8>) -> bool {
    path.len() > 0 && path[path.len() - 1] != 47
}

/// A relative part is put behind a path with one slash between, an absolute one in
/// its place.
pub proof fn parts_are_put_behind_a_slash(base: Seq<u8>, part: Seq<u8>)
    ensures
        (part.len() == 0 || part[0] != 47) && needs_slash(base) ==> joined(base, part) == base
            + seq![47u8] + part,
        (part.len() == 0 || part[0] != 47) && !needs_slash(base) ==> joined(base, part) == base
            + part,
        part.len() > 0 && part[0] == 47 ==> joined(base, part) == part,
{
    assert(base.push(47u8) + part =~= base + seq![47u8] + part);
}

/// The path of a name below a directory.
pub open spec fn below_dir(dir: Seq<u8>, name: Seq<char>) -> Seq<u8> {
    dir + seq![47u8] + encode_utf8(name)
}

proof fn ascii_name(name: Seq<char>)
    requires
        name.len() > 0,
        is_ascii_chars(name),
        name[0] != '/',
        name[name.len() - 1] != '/',
    ensures
        encode_utf8(name).len() > 0,
        encode_utf8(name)[0] != 47,
        encode_utf8(name)[encode_utf8(name).len() - 1] != 47,
{
    is_ascii_chars_encode_utf8(name);
}

proof fn name_goes_below(dir: Seq<u8>, name: Seq<char>)
    requires
        needs_slash(dir),
        name.len() > 0,
        is_ascii_chars(name),
        name[0] != '/',
        name[name.len() - 1] != '/',
    ensures
        joined_name(dir, name) == below_dir(dir, name),
        needs_slash(below_dir(dir, name)),
{
    ascii_name(name);
    parts_are_put_behind_a_slash(dir, encode_utf8(name));
}

proof fn names_are_plain()
    ensures
        forall|name: Seq<char>|
            name == ".config"@ || name == "herdr"@ || name == "herdr.sock"@ || name == "sessions"@
                || name == ".cache"@ || name == "herdr.nvim"@ || name == "layout-cache.json"@
                || name == "panes"@ || name == "session.json"@ ==> name.len() > 0
                && #[trigger] is_ascii_chars(name) && name[0] != '/' && name[name.len() - 1] != '/',
{
    reveal_strlit(".config");
    reveal_strlit("herdr");
    reveal_strlit("herdr.sock");
    reveal_strlit("sessions");
    reveal_strlit(".cache");
    reveal_strlit("herdr.nvim");
    reveal_strlit("layout-cache.json");
    reveal_strlit("panes");
    reveal_strlit("session.json");
}

/// The socket is the one that `HERDR_SOCKET_PATH` names. Where it names none, it is
/// `.config/herdr/herdr.sock` below the home directory, or, for a named session,
/// `.config/herdr/sessions/<session>/herdr.sock`.
pub proof fn socket_lies_below_home(env: Environment, home: Seq<u8>, session: Seq<u8>)
    ensures
        env.socket_path matches Some(path) ==> socket_path_of(env) == Ok::<Seq<u8>, Seq<char>>(
            path@,
        ),
        env.socket_path is None && env.home is None ==> socket_path_of(env) == Err::<
            Seq<u8>,
            Seq<char>,
        >("HOME is not set"@),
        env.socket_path is None && (env.home matches Some(h) && h@ == home) && needs_slash(home)
            && env.session is None ==> socket_path_of(env) == Ok::<Seq<u8>, Seq<char>>(
            below_dir(below_dir(below_dir(home, ".config"@), "herdr"@), "herdr.sock"@),
        ),
        env.socket_path is None && (env.home matches Some(h) && h@ == home) && needs_slash(home) && (
        env.session matches Some(s) && s@ == session) && needs_slash(session) && session[0] != 47
            ==> socket_path_of(env) == Ok::<Seq<u8>, Seq<char>>(
            below_dir(
                below_dir(below_dir(below_dir(home, ".config"@), "herdr"@), "sessions"@)
                    + seq![47u8] + session,
                "herdr.sock"@,
            ),
        ),
{
    names_are_plain();
    if needs_slash(home) {
        let config = below_dir(home, ".config"@);
        let herdr = below_dir(config, "herdr"@);
        let sessions = below_dir(herdr, "sessions"@);
        assert(is_ascii_chars(".config"@) && is_ascii_chars("herdr"@) && is_ascii_chars("sessions"@)
            && is_ascii_chars("herdr.sock"@));
        name_goes_below(home, ".config"@);
        name_goes_below(config, "herdr"@);
        name_goes_below(herdr, "herdr.sock"@);
        name_goes_below(herdr, "sessions"@);
        if needs_slash(session) && session[0] != 47 {
            parts_are_put_behind_a_slash(sessions, session);
            let dir = sessions + seq![47u8] + session;
            assert(dir[dir.len() - 1] == session[session.len() - 1]);
            name_goes_below(dir, "herdr.sock"@);
        }
    }
}

/// What the helper keeps for a session lies in a directory of the socket's hash
/// below `herdr.nvim/sessions`, under `XDG_CACHE_HOME` or else `.cache` in the home
/// directory: the layout cache in `layout-cache.json` and the markers in `panes`.
pub proof fn session_files_lie_below_the_cache(
    env: Environment,
    home: Seq<u8>,
    base: Seq<u8>,
    socket: Seq<u8>,
)
    ensures
        env.home is None ==> session_cache_dir_of(env) == Err::<Seq<u8>, Seq<char>>(
            "HOME is not set"@,
        ) && cache_path_of(env) == Err::<Seq<u8>, Seq<char>>("HOME is not set"@)
            && nvim_panes_dir_of(env) == Err::<Seq<u8>, Seq<char>>("HOME is not set"@),
        (env.home matches Some(h) && h@ == home) && (env.cache_home matches Some(c) && c@ == base)
            ==> cache_base_of(env) == Ok::<Seq<u8>, Seq<char>>(base),
        (env.home matches Some(h) && h@ == home) && env.cache_home is None && needs_slash(home)
            ==> cache_base_of(env) == Ok::<Seq<u8>, Seq<char>>(below_dir(home, ".cache"@)),
        cache_base_of(env) == Ok::<Seq<u8>, Seq<char>>(base) && needs_slash(base)
            && socket_path_of(env) == Ok::<Seq<u8>, Seq<char>>(socket) ==> {
            let dir = below_dir(
                below_dir(below_dir(base, "herdr.nvim"@), "sessions"@),
                stable_hash_of(socket),
            );
            &&& session_cache_dir_of(env) == Ok::<Seq<u8>, Seq<char>>(dir)
            &&& cache_path_of(env) == Ok::<Seq<u8>, Seq<char>>(below_dir(dir, "layout-cache.json"@))
            &&& nvim_panes_dir_of(env) == Ok::<Seq<u8>, Seq<char>>(below_dir(dir, "panes"@))
        },
{
    names_are_plain();
    assert(is_ascii_chars(".cache"@) && is_ascii_chars("herdr.nvim"@) && is_ascii_chars("sessions"@)
        && is_ascii_chars("layout-cache.json"@) && is_ascii_chars("panes"@));
    if needs_slash(home) {
        name_goes_below(home, ".cache"@);
    }
    if needs_slash(base) {
        let own = below_dir(base, "herdr.nvim"@);
        let sessions = below_dir(own, "sessions"@);
        let hash = stable_hash_of(socket);
        name_goes_below(base, "herdr.nvim"@);
        name_goes_below(own, "sessions"@);
        stable_hash_has_eight_digits(socket);
        assert(is_ascii_chars(hash));
        assert(hash[0] != '/' && hash[7] != '/');
        name_goes_below(sessions, hash);
        name_goes_below(below_dir(sessions, hash), "layout-cache.json"@);
        name_goes_below(below_dir(sessions, hash), "panes"@);
    }
}

/// The session file lies beside the socket.
pub proof fn session_file_lies_beside_the_socket(dir: Seq<u8>)
    ensures
        needs_slash(dir) ==> session_file_of(Some(dir)) == Ok::<Seq<u8>, Seq<char>>(
            below_dir(dir, "session.json"@),
        ),
        session_file_of(None) == Err::<Seq<u8>, Seq<char>>("Herdr socket path has no parent"@),
{
    names_are_plain();
    assert(is_ascii_chars("session.json"@));
    if needs_slash(dir) {
        name_goes_below(dir, "session.json"@);
    }
}

/// The hash begins at 5381; each byte is added to 33 times what came before, in 32
/// bits.
pub proof fn hash_takes_bytes_in_turn(bytes: Seq<u8>, last: u8)
    ensures
        hash_value(Seq::<u8>::empty()) == 5381,
        hash_value(bytes.push(last)) == (33 * hash_value(bytes) + last) % 0x1_0000_0000,
{
    assert(bytes.push(last).drop_last() =~= bytes);
}

/// The hash is written in hexadecimal digits, the last one for what is left by 16.
pub proof fn hash_is_written_in_hexadecimal(bytes: Seq<u8>, n: nat, width: nat)
    ensures
        stable_hash_of(bytes) == hexadecimal(hash_value(bytes), 8),
        hexadecimal(n, 0).len() == 0,
        hexadecimal(n, width + 1).drop_last() == hexadecimal(n / 16, width),
        n % 16 < 10 ==> hexadecimal(n, width + 1).last() == '0' as int + n % 16,
        n % 16 >= 10 ==> hexadecimal(n, width + 1).last() == 'a' as int + (n % 16 - 10),
{
    assert(hexadecimal(n, width + 1).drop_last() =~= hexadecimal(n / 16, width));
    assert(hexadecimal(n, width + 1).last() == hex_char(n % 16));
}

} // verus!
