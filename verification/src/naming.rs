//! Default output paths, beside the input: `PATH.enc` when encrypting, and
//! the path without `.enc` (or `PATH.out`) when decrypting. A path without a
//! last component (such as `..`) gives `output.enc` and `output.out`.

use vstd::prelude::*;
use vstd::string::StrSliceExecFns;

use crate::stdtext::{
    drive_named, has_file_name, is_sep, last_part, last_sep, last_slash, named_path, nameless_path,
    opt_view, path_file_name, path_stem, str_eq, unix_last_part, windows_name,
};

verus! {

/// `.enc`
pub open spec fn enc_suffix() -> Seq<char> {
    seq!['.', 'e', 'n', 'c']
}

/// `.out`
pub open spec fn out_suffix() -> Seq<char> {
    seq!['.', 'o', 'u', 't']
}

/// `output`, the name used when a path has no last component.
pub open spec fn fallback_name() -> Seq<char> {
    seq!['o', 'u', 't', 'p', 'u', 't']
}

/// Whether `p` ends with `n`.
pub open spec fn ends_with(p: Seq<char>, n: Seq<char>) -> bool {
    p.len() >= n.len() && p.subrange(p.len() - n.len(), p.len() as int) == n
}

/// `p` without the characters after its last occurrence of the file name `n`
/// (a trailing `/`, say); `n` itself when `p` does not contain it at an end.
pub open spec fn trim_to_name(p: Seq<char>, n: Seq<char>) -> Seq<char>
    decreases p.len(),
{
    if ends_with(p, n) {
        p
    } else if p.len() == 0 {
        n
    } else {
        trim_to_name(p.drop_last(), n)
    }
}

/// The encrypted output path of `p`, whose file name is `base`.
pub open spec fn enc_path_spec(p: Seq<char>, base: Option<Seq<char>>) -> Seq<char> {
    match base {
        Some(n) => trim_to_name(p, n) + enc_suffix(),
        None => fallback_name() + enc_suffix(),
    }
}

/// The decrypted output path of `p` ending in the file name `n`: without
/// `.enc` when `n` ends in `.enc` and something is left, else with `.out`.
pub open spec fn dec_named_spec(q: Seq<char>, n: Seq<char>) -> Seq<char> {
    if n.len() > enc_suffix().len() && ends_with(n, enc_suffix()) {
        q.subrange(0, q.len() - 4)
    } else {
        q + out_suffix()
    }
}

/// The decrypted output path of `p`, whose file name is `base`.
pub open spec fn dec_path_spec(p: Seq<char>, base: Option<Seq<char>>) -> Seq<char> {
    match base {
        Some(n) => dec_named_spec(trim_to_name(p, n), n),
        None => fallback_name() + out_suffix(),
    }
}

/// A trimmed path ends with the name it was trimmed to.
proof fn lemma_trim_ends_with(p: Seq<char>, n: Seq<char>)
    ensures
        ends_with(trim_to_name(p, n), n),
    decreases p.len(),
{
    if !ends_with(p, n) {
        if p.len() == 0 {
            assert(n.subrange(0, n.len() as int) =~= n);
        } else {
            lemma_trim_ends_with(p.drop_last(), n);
        }
    }
}

/// `p` cut back until it ends with `name`, or `name` when it never does.
fn trim_to_name_exec(p: &str, name: &str) -> (r: String)
    ensures
        r@ == trim_to_name(p@, name@),
{
    let n = name.unicode_len();
    let mut end = p.unicode_len();
    assert(p@.subrange(0, end as int) =~= p@);
    loop
        invariant
            end <= p@.len(),
            n == name@.len(),
            trim_to_name(p@, name@) == trim_to_name(p@.subrange(0, end as int), name@),
        decreases end,
    {
        let ghost q = p@.subrange(0, end as int);
        if end >= n {
            let tail = p.substring_char(end - n, end);
            assert(tail@ =~= q.subrange(q.len() - n, q.len() as int));
            if str_eq(tail, name) {
                let kept = p.substring_char(0, end);
                return kept.to_owned();
            }
        }
        if end == 0 {
            return String::from_str(name);
        }
        assert(q.drop_last() =~= p@.subrange(0, end - 1));
        end = end - 1;
    }
}

/// The encrypted output path of `input`, given its file name (as std reads
/// it): the input up to its file name, then `.enc`; `output.enc` when there
/// is no file name.
pub fn enc_path_for(input: &str, base: Option<String>) -> (s: String)
    ensures
        s@ == enc_path_spec(input@, opt_view(base)),
{
    proof {
        reveal_strlit(".enc");
        assert(".enc"@ =~= enc_suffix());
        reveal_strlit("output.enc");
        assert("output.enc"@ =~= fallback_name() + enc_suffix());
    }
    match base {
        Some(n) => {
            let mut s = trim_to_name_exec(input, n.as_str());
            s.append(".enc");
            s
        },
        None => String::from_str("output.enc"),
    }
}

/// The decrypted output path of `input`, given its file name (as std reads
/// it): the input up to its file name, without `.enc` when the name ends in
/// `.enc` and is longer, else with `.out`; `output.out` when there is no file
/// name.
pub fn dec_path_for(input: &str, base: Option<String>) -> (s: String)
    ensures
        s@ == dec_path_spec(input@, opt_view(base)),
{
    proof {
        reveal_strlit(".enc");
        assert(".enc"@ =~= enc_suffix());
        reveal_strlit(".out");
        assert(".out"@ =~= out_suffix());
        reveal_strlit("output.out");
        assert("output.out"@ =~= fallback_name() + out_suffix());
    }
    match base {
        Some(n) => {
            let q = trim_to_name_exec(input, n.as_str());
            proof {
                lemma_trim_ends_with(input@, n@);
            }
            let len = n.as_str().unicode_len();
            if len > 4 {
                let tail = n.as_str().substring_char(len - 4, len);
                if str_eq(tail, ".enc") {
                    let qlen = q.as_str().unicode_len();
                    let head = q.as_str().substring_char(0, qlen - 4);
                    return head.to_owned();
                }
            }
            let mut s = q;
            s.append(".out");
            s
        },
        None => String::from_str("output.out"),
    }
}

/// The last `/` is at an index of the path, or at -1.
proof fn lemma_last_slash_range(p: Seq<char>)
    ensures
        -1 <= last_slash(p) < p.len(),
        last_slash(p) >= 0 ==> p[last_slash(p)] == '/',
    decreases p.len(),
{
    if p.len() > 0 && p.last() != '/' {
        lemma_last_slash_range(p.drop_last());
    }
}

/// The last separator is at an index of the path, or at -1, and at or after
/// the last `/`; when after it, it is a `\`.
proof fn lemma_last_sep_range(p: Seq<char>)
    ensures
        -1 <= last_sep(p) < p.len(),
        -1 <= last_slash(p) < p.len(),
        last_sep(p) >= 0 ==> is_sep(p[last_sep(p)]),
        last_slash(p) <= last_sep(p),
        last_slash(p) < last_sep(p) ==> p[last_sep(p)] == '\\',
        forall|i: int| last_sep(p) < i < p.len() ==> !is_sep(#[trigger] p[i]),
    decreases p.len(),
{
    lemma_last_slash_range(p);
    if p.len() > 0 && !is_sep(p.last()) {
        lemma_last_sep_range(p.drop_last());
        assert forall|i: int| last_sep(p) < i < p.len() implies !is_sep(#[trigger] p[i]) by {
            if i < p.len() - 1 {
                assert(p[i] == p.drop_last()[i]);
            }
        }
    }
}

/// A path ends with both of its candidate last components.
proof fn lemma_parts_are_suffixes(p: Seq<char>)
    ensures
        ends_with(p, last_part(p)),
        ends_with(p, unix_last_part(p)),
        trim_to_name(p, last_part(p)) == p,
        trim_to_name(p, unix_last_part(p)) == p,
{
    lemma_last_sep_range(p);
    let t = last_part(p);
    let u = unix_last_part(p);
    assert(p.subrange(p.len() - t.len(), p.len() as int) =~= t);
    assert(p.subrange(p.len() - u.len(), p.len() as int) =~= u);
}

/// Whether the output name is the name without `.enc`.
pub open spec fn strips_enc(n: Seq<char>) -> bool {
    n.len() > enc_suffix().len() && ends_with(n, enc_suffix())
}

/// The Unix reading of the last component strips `.enc` exactly when the
/// Windows reading does, unless the Windows one is `.enc` itself.
proof fn lemma_strips_enc_same(p: Seq<char>)
    requires
        last_part(p) != enc_suffix(),
    ensures
        strips_enc(unix_last_part(p)) == strips_enc(last_part(p)),
{
    lemma_last_sep_range(p);
    let t = last_part(p);
    let u = unix_last_part(p);
    let k = last_sep(p);
    let j = last_slash(p);
    if j < k {
        assert(u.len() == t.len() + (k - j));
        assert(u[u.len() - t.len() - 1] == p[k]);
        if t.len() >= 4 {
            assert(u.subrange(u.len() - 4, u.len() as int) =~= t.subrange(t.len() - 4, t.len() as int));
            if ends_with(t, enc_suffix()) && t.len() == 4 {
                assert(t =~= t.subrange(0, 4));
            }
        } else if u.len() >= 4 {
            let w = u.subrange(u.len() - 4, u.len() as int);
            assert(w[3 - t.len()] == '\\');
            assert(w != enc_suffix());
        }
    } else {
        assert(t =~= u);
    }
}

/// Whether `n` can stand as a file name: non-empty, not `.`, no `/`.
pub open spec fn name_like(n: Seq<char>) -> bool {
    &&& n.len() > 0
    &&& n != seq!['.']
    &&& forall|i: int| 0 <= i < n.len() ==> #[trigger] n[i] != '/'
}

/// A path ending in `/` or `/.` does not end with a name.
proof fn lemma_not_ending_with_name(p: Seq<char>, n: Seq<char>)
    requires
        name_like(n),
        (p.len() > 0 && p.last() == '/') || (p.len() >= 2 && p.last() == '.' && p[p.len() - 2] == '/'),
    ensures
        !ends_with(p, n),
{
    if ends_with(p, n) {
        let w = p.subrange(p.len() - n.len(), p.len() as int);
        assert(w[n.len() - 1] == p.last());
        if p.last() == '/' {
            assert(n[n.len() - 1] == '/');
        } else if n.len() == 1 {
            assert(n =~= seq!['.']);
        } else {
            assert(w[n.len() - 2] == p[p.len() - 2]);
            assert(n[n.len() - 2] == '/');
        }
    }
}

/// Cutting a path back to a name passes over trailing `/` and `/.`.
proof fn lemma_trim_stem(p: Seq<char>, n: Seq<char>)
    requires
        name_like(n),
    ensures
        trim_to_name(p, n) == trim_to_name(path_stem(p), n),
    decreases p.len(),
{
    if (p.len() > 0 && p.last() == '/') || (p.len() >= 2 && p.last() == '.' && p[p.len() - 2] == '/') {
        lemma_not_ending_with_name(p, n);
        lemma_trim_stem(p.drop_last(), n);
    }
}

/// Both readings of the file name of a path that has one are names that the
/// path (without trailing `/` and `/.`) ends with.
proof fn lemma_candidates(q: Seq<char>)
    requires
        named_path(q) || drive_named(q),
    ensures
        name_like(windows_name(q)),
        name_like(unix_last_part(q)),
        trim_to_name(q, windows_name(q)) == q,
        trim_to_name(q, unix_last_part(q)) == q,
{
    lemma_last_sep_range(q);
    lemma_parts_are_suffixes(q);
    let u = unix_last_part(q);
    let t = last_part(q);
    assert forall|i: int| 0 <= i < t.len() implies #[trigger] t[i] != '/' by {
        assert(t[i] == q[last_sep(q) + 1 + i]);
    }
    assert forall|i: int| 0 <= i < u.len() implies #[trigger] u[i] != '/' by {
        assert(u[i] == q[last_slash(q) + 1 + i]);
        if last_slash(q) + 1 + i > last_sep(q) {
        } else if u[i] == '/' {
            assert(q[last_slash(q) + 1 + i] == '/');
            lemma_no_slash_after_last(q, last_slash(q) + 1 + i);
        }
    }
    if drive_named(q) {
        assert(u =~= q);
        let w = q.skip(2);
        assert forall|i: int| 0 <= i < w.len() implies #[trigger] w[i] != '/' by {
            assert(w[i] == q[i + 2]);
        }
        assert(q.subrange(q.len() - w.len(), q.len() as int) =~= w);
    } else {
        if u == seq!['.'] {
            if last_slash(q) < last_sep(q) {
                assert(u[u.len() - t.len() - 1] == q[last_sep(q)]);
            } else {
                assert(t =~= u);
            }
        }
    }
}

/// No `/` stands after the last one.
proof fn lemma_no_slash_after_last(p: Seq<char>, i: int)
    requires
        last_slash(p) < i < p.len(),
    ensures
        p[i] != '/',
    decreases p.len(),
{
    lemma_last_slash_range(p);
    if p.last() != '/' && i < p.len() - 1 {
        lemma_no_slash_after_last(p.drop_last(), i);
        assert(p.drop_last()[i] == p[i]);
    }
}

/// Dropping trailing `/` and `/.` leaves a path that has no more of them.
proof fn lemma_stem_of_named(p: Seq<char>)
    requires
        named_path(p) || drive_named(p),
    ensures
        path_stem(p) == p,
{
    lemma_last_sep_range(p);
    if p.len() > 0 && p.last() == '/' {
        assert(last_sep(p) == p.len() - 1);
        assert(last_part(p).len() == 0);
    } else if p.len() >= 2 && p.last() == '.' && p[p.len() - 2] == '/' {
        assert(last_sep(p) == p.len() - 2) by {
            assert(p.drop_last().last() == '/');
        }
        assert(last_part(p) =~= seq!['.']);
    }
}

/// After a drive, the name strips `.enc` exactly when the whole text does,
/// unless the name is `.enc` itself.
proof fn lemma_drive_strips_alike(q: Seq<char>)
    requires
        q.len() > 2,
        q[1] == ':',
        q.skip(2) != enc_suffix(),
    ensures
        strips_enc(q) == strips_enc(q.skip(2)),
{
    let w = q.skip(2);
    assert(q.len() == w.len() + 2);
    if w.len() >= 4 {
        assert(q.subrange(q.len() - 4, q.len() as int) =~= w.subrange(w.len() - 4, w.len() as int));
        if ends_with(w, enc_suffix()) && w.len() == 4 {
            assert(w =~= w.subrange(0, 4));
        }
    } else if q.len() >= 4 {
        let z = q.subrange(q.len() - 4, q.len() as int);
        let j = 5 - q.len();
        assert(0 <= j < 4);
        assert(z[j] == q[1]);
        assert(enc_suffix()[j] != ':');
        assert(z != enc_suffix());
    }
}

/// The Windows reading strips `.enc` exactly when the Unix reading does,
/// unless the Windows reading is `.enc` itself.
proof fn lemma_readings_strip_alike(q: Seq<char>)
    requires
        named_path(q) || drive_named(q),
        windows_name(q) != enc_suffix(),
    ensures
        strips_enc(unix_last_part(q)) == strips_enc(windows_name(q)),
{
    lemma_last_sep_range(q);
    if drive_named(q) {
        assert(unix_last_part(q) =~= q);
        lemma_drive_strips_alike(q);
    } else {
        lemma_strips_enc_same(q);
    }
}

/// The default path of the encrypted output of `input`: beside the input,
/// `PATH.enc` (trailing `/` and `/.` dropped); `output.enc` when the path has
/// no last component.
pub fn default_enc_name(input: &str) -> (s: String)
    ensures
        has_file_name(input@) ==> s@ == path_stem(input@) + enc_suffix(),
        named_path(input@) ==> s@ == input@ + enc_suffix(),
        nameless_path(input@) ==> s@ == fallback_name() + enc_suffix(),
        exists|base: Option<Seq<char>>| s@ == #[trigger] enc_path_spec(input@, base),
{
    let base = path_file_name(input);
    let s = enc_path_for(input, base);
    proof {
        if named_path(input@) {
            lemma_stem_of_named(input@);
        }
        if has_file_name(input@) {
            let q = path_stem(input@);
            lemma_candidates(q);
            lemma_trim_stem(input@, windows_name(q));
            lemma_trim_stem(input@, unix_last_part(q));
        }
    }
    assert(s@ == enc_path_spec(input@, opt_view(base)));
    s
}

/// The default path of the decrypted output of `input` (trailing `/` and `/.`
/// dropped): the path without `.enc` when its name ends in `.enc` and is
/// longer, else `PATH.out`; `output.out` when the path has no last
/// component. (For a name that is `.enc` after a `\` or a drive, the
/// platforms disagree on the name.)
pub fn default_dec_base(input: &str) -> (s: String)
    ensures
        has_file_name(input@) && (windows_name(path_stem(input@)) != enc_suffix() || windows_name(
            path_stem(input@),
        ) == unix_last_part(path_stem(input@))) ==> s@ == dec_named_spec(
            path_stem(input@),
            windows_name(path_stem(input@)),
        ),
        nameless_path(input@) ==> s@ == fallback_name() + out_suffix(),
        exists|base: Option<Seq<char>>| s@ == #[trigger] dec_path_spec(input@, base),
{
    let base = path_file_name(input);
    let s = dec_path_for(input, base);
    proof {
        if has_file_name(input@) {
            let q = path_stem(input@);
            lemma_candidates(q);
            lemma_trim_stem(input@, windows_name(q));
            lemma_trim_stem(input@, unix_last_part(q));
            if windows_name(q) != enc_suffix() {
                lemma_readings_strip_alike(q);
            }
        }
    }
    assert(s@ == dec_path_spec(input@, opt_view(base)));
    s
}

/// Appending characters other than separators keeps the last separators
/// where they were.
proof fn lemma_last_sep_append(p: Seq<char>, t: Seq<char>)
    requires
        forall|i: int| 0 <= i < t.len() ==> !is_sep(#[trigger] t[i]),
    ensures
        last_sep(p + t) == last_sep(p),
        last_slash(p + t) == last_slash(p),
    decreases t.len(),
{
    if t.len() > 0 {
        assert((p + t).drop_last() =~= p + t.drop_last());
        lemma_last_sep_append(p, t.drop_last());
    } else {
        assert(p + t =~= p);
    }
}

/// Decrypting names undo encrypting names: for a path that has a file name,
/// the encrypted output `PATH.enc` (trailing `/` and `/.` dropped) has the
/// file name `NAME.enc` on every platform, and its decrypted output is `PATH`
/// again.
pub proof fn lemma_default_names_roundtrip(p: Seq<char>)
    requires
        has_file_name(p),
    ensures
        has_file_name(path_stem(p) + enc_suffix()),
        path_stem(path_stem(p) + enc_suffix()) == path_stem(p) + enc_suffix(),
        windows_name(path_stem(p) + enc_suffix()) == windows_name(path_stem(p)) + enc_suffix(),
        windows_name(path_stem(p) + enc_suffix()) != enc_suffix(),
        dec_named_spec(path_stem(p) + enc_suffix(), windows_name(path_stem(p) + enc_suffix())) == path_stem(p),
{
    let q = path_stem(p);
    let e = q + enc_suffix();
    let k = last_sep(q);
    lemma_last_sep_range(q);
    lemma_last_sep_append(q, enc_suffix());
    lemma_candidates(q);
    let w = windows_name(q);
    let m = w + enc_suffix();
    assert(m.len() > 4);
    assert(m.subrange(m.len() - 4, m.len() as int) =~= enc_suffix());
    assert(e.subrange(0, e.len() - 4) =~= q);
    if drive_named(q) {
        assert(e.skip(2) =~= q.skip(2) + enc_suffix());
        assert(e[1] == q[1]);
        assert(drive_named(e));
    } else {
        assert(e.subrange(k + 1, e.len() as int) =~= last_part(q) + enc_suffix());
        if q.len() >= 2 {
            assert(e[0] == q[0] && e[1] == q[1]);
        } else {
            assert(q.len() == 1);
            assert(k < 0);
            assert(!is_sep(q[0]));
            assert(e[0] == q[0]);
            assert(e[1] == '.');
        }
        assert(named_path(e));
    }
    lemma_stem_of_named(e);
}

} // verus!
