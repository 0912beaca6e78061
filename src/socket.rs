//! Where the daemon's Unix domain socket lives on each kind of Unix.
use vstd::prelude::*;

verus! {

/// The kinds of Unix whose socket locations differ.
#[derive(Clone, Copy, Debug, PartialEq, Eq, Structural)]
pub enum UnixFlavor {
    MacOs,
    Linux,
    Other,
}

/// `rest` appended to the path `base` as a further component: a separator is
/// put between them unless `base` is empty or already ends with one.
pub open spec fn joined(base: Seq<char>, rest: Seq<char>) -> Seq<char> {
    if base.len() == 0 || base.last() == '/' {
        base + rest
    } else {
        base + seq!['/'] + rest
    }
}

/// The directory that holds the socket, given `$HOME` and `$XDG_RUNTIME_DIR`
/// where they are set: `$HOME/Library/Application Support/VyasoAI` on macOS
/// (`.` standing for an unset home), `$XDG_RUNTIME_DIR` on Linux (`/tmp` when
/// unset), `/tmp` elsewhere.
pub open spec fn socket_dir_text(
    flavor: UnixFlavor,
    home: Option<Seq<char>>,
    runtime_dir: Option<Seq<char>>,
) -> Seq<char> {
    match flavor {
        UnixFlavor::MacOs => joined(
            match home {
                Some(h) => h,
                None => "."@,
            },
            "Library/Application Support/VyasoAI"@,
        ),
        UnixFlavor::Linux => match runtime_dir {
            Some(d) => d,
            None => "/tmp"@,
        },
        UnixFlavor::Other => "/tmp"@,
    }
}

/// An optional text as plain values.
pub open spec fn opt_view(o: Option<&str>) -> Option<Seq<char>> {
    match o {
        Some(s) => Some(s@),
        None => None,
    }
}

/// Appends `rest` to `base` as a further path component.
fn join(base: &str, rest: &str) -> (r: String)
    ensures
        r@ == joined(base@, rest@),
{
    let n = base.unicode_len();
    let mut out = String::from_str(base);
    if n > 0 && base.get_char(n - 1) != '/' {
        out.push('/');
    }
    out.append(rest);
    assert(out@ =~= joined(base@, rest@));
    out
}

/// The directory that holds the socket; see `socket_dir_text`.
pub fn socket_dir(flavor: UnixFlavor, home: Option<&str>, runtime_dir: Option<&str>) -> (r: String)
    ensures
        r@ == socket_dir_text(flavor, opt_view(home), opt_view(runtime_dir)),
{
    match flavor {
        UnixFlavor::MacOs => {
            let base = match home {
                Some(h) => h,
                None => ".",
            };
            join(base, "Library/Application Support/VyasoAI")
        },
        UnixFlavor::Linux => match runtime_dir {
            Some(d) => String::from_str(d),
            None => String::from_str("/tmp"),
        },
        UnixFlavor::Other => String::from_str("/tmp"),
    }
}

/// The path of the daemon's socket: `vyasoai.sock` in `socket_dir`.
pub fn socket_path(flavor: UnixFlavor, home: Option<&str>, runtime_dir: Option<&str>) -> (r: String)
    ensures
        r@ == joined(
            socket_dir_text(flavor, opt_view(home), opt_view(runtime_dir)),
            "vyasoai.sock"@,
        ),
{
    let dir = socket_dir(flavor, home, runtime_dir);
    join(dir.as_str(), "vyasoai.sock")
}

} // verus!
