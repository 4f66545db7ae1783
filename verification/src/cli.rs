//! The decisions of the command line: arguments, commands, the smart mode,
//! colours and size units. Reading the environment, the terminal and the
//! file system is left to the caller, which hands the results in.

use vstd::prelude::*;

use crate::layout::starts_with_magic;
use crate::stdtext::{parse_usize, parse_usize_spec, str_eq};

verus! {

// ------------------------- colours -------------------------

/// Whether to colour the output: never with `NO_COLOR`, always with
/// `CLICOLOR_FORCE`, else when stderr is a terminal.
pub open spec fn color_choice_spec(no_color: bool, clicolor_force: bool, stderr_is_terminal: bool) -> bool {
    if no_color {
        false
    } else if clicolor_force {
        true
    } else {
        stderr_is_terminal
    }
}

/// Decides whether to colour the output from whether `NO_COLOR` and
/// `CLICOLOR_FORCE` are set and whether stderr is a terminal.
pub fn color_choice(no_color: bool, clicolor_force: bool, stderr_is_terminal: bool) -> (b: bool)
    ensures
        b == color_choice_spec(no_color, clicolor_force, stderr_is_terminal),
{
    if no_color {
        return false;
    }
    if clicolor_force {
        return true;
    }
    stderr_is_terminal
}

/// The escape sequence that starts the style with the given SGR code.
pub open spec fn sgr_start(code: Seq<char>) -> Seq<char> {
    seq!['\x1b', '['] + code + seq!['m']
}

/// The escape sequence that resets the style.
pub open spec fn sgr_reset() -> Seq<char> {
    seq!['\x1b', '[', '0', 'm']
}

/// `s` in the style `code` when colouring is enabled, else `s` unchanged.
pub open spec fn paint_spec(enabled: bool, code: Seq<char>, s: Seq<char>) -> Seq<char> {
    if enabled {
        sgr_start(code) + s + sgr_reset()
    } else {
        s
    }
}

/// Wraps `s` in the ANSI style `code` when colouring is enabled.
pub fn paint(enabled: bool, code: &str, s: &str) -> (r: String)
    ensures
        r@ == paint_spec(enabled, code@, s@),
{
    if enabled {
        proof {
            reveal_strlit("\x1b[");
            reveal_strlit("m");
            reveal_strlit("\x1b[0m");
        }
        let mut r = String::from_str("\x1b[");
        r.append(code);
        r.append("m");
        r.append(s);
        r.append("\x1b[0m");
        assert(r@ =~= paint_spec(enabled, code@, s@));
        r
    } else {
        String::from_str(s)
    }
}

/// Bold green (`1;32`).
pub fn green(enabled: bool, s: &str) -> (r: String)
    ensures
        r@ == paint_spec(enabled, seq!['1', ';', '3', '2'], s@),
{
    proof {
        reveal_strlit("1;32");
        assert("1;32"@ =~= seq!['1', ';', '3', '2']);
    }
    paint(enabled, "1;32", s)
}

/// Bold (`1`).
pub fn bold(enabled: bool, s: &str) -> (r: String)
    ensures
        r@ == paint_spec(enabled, seq!['1'], s@),
{
    proof {
        reveal_strlit("1");
        assert("1"@ =~= seq!['1']);
    }
    paint(enabled, "1", s)
}

/// Dim (`2`).
pub fn dim(enabled: bool, s: &str) -> (r: String)
    ensures
        r@ == paint_spec(enabled, seq!['2'], s@),
{
    proof {
        reveal_strlit("2");
        assert("2"@ =~= seq!['2']);
    }
    paint(enabled, "2", s)
}

/// Cyan (`36`).
pub fn cyan(enabled: bool, s: &str) -> (r: String)
    ensures
        r@ == paint_spec(enabled, seq!['3', '6'], s@),
{
    proof {
        reveal_strlit("36");
        assert("36"@ =~= seq!['3', '6']);
    }
    paint(enabled, "36", s)
}

/// Bold yellow (`1;33`).
pub fn yellow(enabled: bool, s: &str) -> (r: String)
    ensures
        r@ == paint_spec(enabled, seq!['1', ';', '3', '3'], s@),
{
    proof {
        reveal_strlit("1;33");
        assert("1;33"@ =~= seq!['1', ';', '3', '3']);
    }
    paint(enabled, "1;33", s)
}

// ------------------------- smart mode -------------------------

/// What `enc <path>` does with a path.
#[derive(Debug, Clone, Copy, PartialEq, Eq)]
pub enum SmartAction {
    Encrypt,
    Decrypt,
}

/// A folder is always encrypted; a file is decrypted exactly when its first
/// four bytes are the magic.
pub open spec fn smart_action_spec(is_dir: bool, head: Seq<u8>) -> SmartAction {
    if !is_dir && starts_with_magic(head) {
        SmartAction::Decrypt
    } else {
        SmartAction::Encrypt
    }
}

/// Decides the direction of `enc <path>` from whether the path is a folder and
/// from the bytes read at the start of the file (up to four).
pub fn smart_action(is_dir: bool, head: &[u8]) -> (a: SmartAction)
    ensures
        a == smart_action_spec(is_dir, head@),
{
    if is_dir {
        return SmartAction::Encrypt;
    }
    if head.len() >= 4 && crate::layout::has_magic(head) {
        SmartAction::Decrypt
    } else {
        SmartAction::Encrypt
    }
}

/// Every blob that reads as some version (so every blob that encryption
/// produced) is recognised as encrypted by the smart mode, whatever its name.
pub proof fn lemma_blobs_detected(blob: Seq<u8>)
    requires
        crate::layout::peek_version_spec(blob) is Ok,
    ensures
        smart_action_spec(false, blob.subrange(0, 4)) == SmartAction::Decrypt,
{
    assert(blob.subrange(0, 4).subrange(0, 4) =~= blob.subrange(0, 4));
}

// ------------------------- arguments -------------------------

/// Password length when none is given.
pub const DEFAULT_PASS_LEN: usize = 24;

/// The length that `[length] [path]` gives: the first token when it is a
/// number, else 24.
pub open spec fn pass_len_spec(rest: Seq<Seq<char>>) -> usize {
    if rest.len() > 0 {
        match parse_usize_spec(rest[0]) {
            Some(n) => n,
            None => DEFAULT_PASS_LEN,
        }
    } else {
        DEFAULT_PASS_LEN
    }
}

/// The index of the path token in `[length] [path]`.
pub open spec fn path_index_spec(rest: Seq<Seq<char>>) -> int {
    if rest.len() > 0 && parse_usize_spec(rest[0]) is Some {
        1
    } else {
        0
    }
}

/// The views of a list of strings.
pub open spec fn strings_view(v: Seq<String>) -> Seq<Seq<char>> {
    v.map_values(|s: String| s@)
}

/// Parses `[length] [path]` following a `-p` flag: a leading number is the
/// length (default 24), and the next token, if any, is the path.
pub fn parse_len_and_path(rest: &[String]) -> (r: (usize, Option<&str>))
    ensures
        r.0 == pass_len_spec(strings_view(rest@)),
        path_index_spec(strings_view(rest@)) < rest@.len() ==> (r.1 matches Some(p) && p@
            == rest@[path_index_spec(strings_view(rest@))]@),
        path_index_spec(strings_view(rest@)) >= rest@.len() ==> r.1 is None,
{
    let ghost views = strings_view(rest@);
    let mut idx: usize = 0;
    let len = if rest.len() > 0 {
        match parse_usize(rest[0].as_str()) {
            Some(n) => {
                idx = 1;
                n
            },
            None => DEFAULT_PASS_LEN,
        }
    } else {
        DEFAULT_PASS_LEN
    };
    assert(views.len() == rest@.len());
    if rest.len() > 0 {
        assert(views[0] == rest@[0]@);
    }
    let path = if idx < rest.len() {
        Some(rest[idx].as_str())
    } else {
        None
    };
    (len, path)
}

/// `-np`
pub open spec fn np_flag() -> Seq<char> {
    seq!['-', 'n', 'p']
}

/// Takes every `-np <secret>` pair out of the arguments from index `i` on; the
/// last one given wins. `None` when `-np` is the last argument.
pub open spec fn extract_np_spec(
    raw: Seq<Seq<char>>,
    i: int,
    np: Option<Seq<char>>,
    args: Seq<Seq<char>>,
) -> Option<(Option<Seq<char>>, Seq<Seq<char>>)>
    decreases raw.len() - i,
{
    if i < 0 || i >= raw.len() {
        Some((np, args))
    } else if raw[i] == np_flag() {
        if i + 1 < raw.len() {
            extract_np_spec(raw, i + 2, Some(raw[i + 1]), args)
        } else {
            None
        }
    } else {
        extract_np_spec(raw, i + 1, np, args.push(raw[i]))
    }
}

/// Pulls `-np <secret>` out of the command line, wherever it stands, and
/// returns the secret (the last one given) and the remaining arguments in
/// order; `None` when `-np` has no value after it.
pub fn extract_np(raw: &Vec<String>) -> (r: Option<(Option<String>, Vec<String>)>)
    ensures
        match extract_np_spec(strings_view(raw@), 0, None, Seq::empty()) {
            None => r is None,
            Some((np, args)) => r matches Some((n, a)) && crate::stdtext::opt_view(n) == np
                && strings_view(a@) == args,
        },
{
    let ghost views = strings_view(raw@);
    let mut np: Option<String> = None;
    let mut args: Vec<String> = Vec::new();
    let mut ri: usize = 0;
    proof {
        reveal_strlit("-np");
        assert("-np"@ =~= np_flag());
        assert(strings_view(args@) =~= Seq::<Seq<char>>::empty());
    }
    while ri < raw.len()
        invariant
            ri <= raw@.len(),
            views == strings_view(raw@),
            views.len() == raw@.len(),
            "-np"@ == np_flag(),
            extract_np_spec(views, ri as int, crate::stdtext::opt_view(np), strings_view(args@))
                == extract_np_spec(views, 0, None, Seq::empty()),
        decreases raw@.len() - ri,
    {
        assert(views[ri as int] == raw@[ri as int]@);
        if str_eq(raw[ri].as_str(), "-np") {
            if ri + 1 < raw.len() {
                assert(views[ri + 1] == raw@[ri + 1]@);
                np = Some(raw[ri + 1].clone());
                ri = ri + 2;
            } else {
                return None;
            }
        } else {
            let ghost old_args = args@;
            args.push(raw[ri].clone());
            assert(strings_view(args@) =~= strings_view(old_args).push(views[ri as int]));
            ri = ri + 1;
        }
    }
    Some((np, args))
}

/// What the first argument asks for.
#[derive(Debug, Clone, Copy, PartialEq, Eq)]
pub enum Command {
    /// `help`, `-h`, `--help`
    Help,
    /// `keygen`
    Keygen,
    /// `-p`, `password`, `pass`
    Password,
    /// `sha256`, `hash`
    Sha256,
    /// `encrypt`
    Encrypt,
    /// `decrypt`
    Decrypt,
    /// `encrypt-dir`
    EncryptDir,
    /// `decrypt-dir`
    DecryptDir,
    /// Anything else: a path for the smart mode.
    Smart,
}

/// The command that a first argument names.
pub open spec fn command_spec(cmd: Seq<char>) -> Command {
    if cmd == "help"@ || cmd == "-h"@ || cmd == "--help"@ {
        Command::Help
    } else if cmd == "keygen"@ {
        Command::Keygen
    } else if cmd == "-p"@ || cmd == "password"@ || cmd == "pass"@ {
        Command::Password
    } else if cmd == "sha256"@ || cmd == "hash"@ {
        Command::Sha256
    } else if cmd == "encrypt"@ {
        Command::Encrypt
    } else if cmd == "decrypt"@ {
        Command::Decrypt
    } else if cmd == "encrypt-dir"@ {
        Command::EncryptDir
    } else if cmd == "decrypt-dir"@ {
        Command::DecryptDir
    } else {
        Command::Smart
    }
}

/// Names the command of the first argument.
pub fn classify_command(cmd: &str) -> (c: Command)
    ensures
        c == command_spec(cmd@),
{
    if str_eq(cmd, "help") || str_eq(cmd, "-h") || str_eq(cmd, "--help") {
        Command::Help
    } else if str_eq(cmd, "keygen") {
        Command::Keygen
    } else if str_eq(cmd, "-p") || str_eq(cmd, "password") || str_eq(cmd, "pass") {
        Command::Password
    } else if str_eq(cmd, "sha256") || str_eq(cmd, "hash") {
        Command::Sha256
    } else if str_eq(cmd, "encrypt") {
        Command::Encrypt
    } else if str_eq(cmd, "decrypt") {
        Command::Decrypt
    } else if str_eq(cmd, "encrypt-dir") {
        Command::EncryptDir
    } else if str_eq(cmd, "decrypt-dir") {
        Command::DecryptDir
    } else {
        Command::Smart
    }
}

// ------------------------- decrypting -------------------------

/// Which secret a blob asks for.
#[derive(Debug, Clone, Copy, PartialEq, Eq)]
pub enum SecretKind {
    /// A 32-byte key given as hex.
    Key,
    /// A password.
    Password,
}

/// A version-3 blob asks for a password; every other version for a key.
pub fn secret_kind(version: u8) -> (k: SecretKind)
    ensures
        k == (if version == crate::layout::VERSION_PW { SecretKind::Password } else { SecretKind::Key }),
{
    if version == crate::layout::VERSION_PW {
        SecretKind::Password
    } else {
        SecretKind::Key
    }
}

/// Whether decrypted bytes are unpacked as a folder: when asked to
/// (`decrypt-dir`), or when they look like a tar archive.
pub fn unpack_as_folder(force_dir: bool, plain: &[u8]) -> (b: bool)
    ensures
        b == (force_dir || crate::layout::looks_like_tar_spec(plain@)),
{
    force_dir || crate::layout::looks_like_tar(plain)
}

/// The command table: each command is named by exactly its documented words
/// (`help`, `-h`, `--help`; `keygen`; `-p`, `password`, `pass`; `sha256`,
/// `hash`; `encrypt`; `decrypt`; `encrypt-dir`; `decrypt-dir`), and every
/// other first argument is a path for the smart mode.
pub proof fn lemma_command_table(cmd: Seq<char>)
    ensures
        (command_spec(cmd) == Command::Help) <==> (cmd == seq!['h', 'e', 'l', 'p'] || cmd == seq!['-', 'h']
            || cmd == seq!['-', '-', 'h', 'e', 'l', 'p']),
        (command_spec(cmd) == Command::Keygen) <==> cmd == seq!['k', 'e', 'y', 'g', 'e', 'n'],
        (command_spec(cmd) == Command::Password) <==> (cmd == seq!['-', 'p'] || cmd == seq![
            'p',
            'a',
            's',
            's',
            'w',
            'o',
            'r',
            'd',
        ] || cmd == seq!['p', 'a', 's', 's']),
        (command_spec(cmd) == Command::Sha256) <==> (cmd == seq!['s', 'h', 'a', '2', '5', '6'] || cmd
            == seq!['h', 'a', 's', 'h']),
        (command_spec(cmd) == Command::Encrypt) <==> cmd == seq!['e', 'n', 'c', 'r', 'y', 'p', 't'],
        (command_spec(cmd) == Command::Decrypt) <==> cmd == seq!['d', 'e', 'c', 'r', 'y', 'p', 't'],
        (command_spec(cmd) == Command::EncryptDir) <==> cmd == seq![
            'e',
            'n',
            'c',
            'r',
            'y',
            'p',
            't',
            '-',
            'd',
            'i',
            'r',
        ],
        (command_spec(cmd) == Command::DecryptDir) <==> cmd == seq![
            'd',
            'e',
            'c',
            'r',
            'y',
            'p',
            't',
            '-',
            'd',
            'i',
            'r',
        ],
{
    reveal_strlit("help");
    reveal_strlit("-h");
    reveal_strlit("--help");
    reveal_strlit("keygen");
    reveal_strlit("-p");
    reveal_strlit("password");
    reveal_strlit("pass");
    reveal_strlit("sha256");
    reveal_strlit("hash");
    reveal_strlit("encrypt");
    reveal_strlit("decrypt");
    reveal_strlit("encrypt-dir");
    reveal_strlit("decrypt-dir");
    assert("help"@ =~= seq!['h', 'e', 'l', 'p']);
    assert("-h"@ =~= seq!['-', 'h']);
    assert("--help"@ =~= seq!['-', '-', 'h', 'e', 'l', 'p']);
    assert("keygen"@ =~= seq!['k', 'e', 'y', 'g', 'e', 'n']);
    assert("-p"@ =~= seq!['-', 'p']);
    assert("password"@ =~= seq!['p', 'a', 's', 's', 'w', 'o', 'r', 'd']);
    assert("pass"@ =~= seq!['p', 'a', 's', 's']);
    assert("sha256"@ =~= seq!['s', 'h', 'a', '2', '5', '6']);
    assert("hash"@ =~= seq!['h', 'a', 's', 'h']);
    assert("encrypt"@ =~= seq!['e', 'n', 'c', 'r', 'y', 'p', 't']);
    assert("decrypt"@ =~= seq!['d', 'e', 'c', 'r', 'y', 'p', 't']);
    assert("encrypt-dir"@ =~= seq!['e', 'n', 'c', 'r', 'y', 'p', 't', '-', 'd', 'i', 'r']);
    assert("decrypt-dir"@ =~= seq!['d', 'e', 'c', 'r', 'y', 'p', 't', '-', 'd', 'i', 'r']);
}

} // verus!
