//! Where the build cache lives, and the patterns that pacman is asked to
//! search for.

use vstd::prelude::*;
use crate::text::chars_of;
use vstd::slice::slice_to_vec;

verus! {

/// `base` joined with `part` as `Path::join` does it on Unix: an absolute
/// `part` replaces `base`; otherwise a `/` is put between the two unless
/// `base` is empty or already ends with one.
pub open spec fn path_join_spec(base: Seq<char>, part: Seq<char>) -> Seq<char> {
    if part.len() > 0 && part[0] == '/' {
        part
    } else if base.len() == 0 || base.last() == '/' {
        base + part
    } else {
        base + "/"@ + part
    }
}

/// `base` joined with `part`, as `Path::join` does it on Unix.
pub fn path_join(base: &str, part: &str) -> (r: String)
    ensures
        r@ == path_join_spec(base@, part@),
{
    let b = chars_of(base);
    let p = chars_of(part);
    if p.len() > 0 && p[0] == '/' {
        String::from_str(part)
    } else if b.len() == 0 || b[b.len() - 1] == '/' {
        let mut r = String::from_str(base);
        r.append(part);
        r
    } else {
        let mut r = String::from_str(base);
        r.append("/");
        r.append(part);
        r
    }
}

/// The directory under `home` where AUR packages are cloned and built:
/// `home/.cache/tarah/git_cloney_thingy`.
pub open spec fn cache_dir_spec(home: Seq<char>) -> Seq<char> {
    path_join_spec(path_join_spec(path_join_spec(home, ".cache"@), "tarah"@), "git_cloney_thingy"@)
}

/// The build cache directory under `home`.
pub fn cache_dir(home: &str) -> (r: String)
    ensures
        r@ == cache_dir_spec(home@),
{
    let a = path_join(home, ".cache");
    let b = path_join(a.as_str(), "tarah");
    path_join(b.as_str(), "git_cloney_thingy")
}

/// The directory that the AUR package `pack` is cloned into.
pub open spec fn clone_dir_spec(home: Seq<char>, pack: Seq<char>) -> Seq<char> {
    path_join_spec(cache_dir_spec(home), pack)
}

/// The directory that the AUR package `pack` is cloned into.
pub fn clone_dir(home: &str, pack: &str) -> (r: String)
    ensures
        r@ == clone_dir_spec(home@, pack@),
{
    let c = cache_dir(home);
    path_join(c.as_str(), pack)
}

/// The argument handed to `rm -rf` to empty the cache directory `dir`:
/// `dir/*`.
pub fn cache_glob(dir: &str) -> (r: String)
    ensures
        r@ == dir@ + "/*"@,
{
    let mut r = String::from_str(dir);
    r.append("/*");
    r
}

/// `base` joined with `part` as `Path::join` does it on Unix, over the
/// bytes of the two paths.
pub open spec fn path_join_bytes_spec(base: Seq<u8>, part: Seq<u8>) -> Seq<u8> {
    if part.len() > 0 && part[0] == 0x2f {
        part
    } else if base.len() == 0 || base.last() == 0x2f {
        base + part
    } else {
        base + seq![0x2fu8] + part
    }
}

/// `base` joined with `part`, as `Path::join` does it on Unix, over bytes.
pub fn path_join_bytes(base: &[u8], part: &[u8]) -> (r: Vec<u8>)
    ensures
        r@ == path_join_bytes_spec(base@, part@),
{
    if part.len() > 0 && part[0] == 0x2f {
        slice_to_vec(part)
    } else {
        let mut r = slice_to_vec(base);
        if !(base.len() == 0 || base[base.len() - 1] == 0x2f) {
            r.push(0x2f);
        }
        let mut p = slice_to_vec(part);
        r.append(&mut p);
        r
    }
}

/// The bytes of the three components of the cache directory: `.cache`,
/// `tarah` and `git_cloney_thingy`.
pub open spec fn cache_components() -> (Seq<u8>, Seq<u8>, Seq<u8>) {
    (seq![46u8, 99u8, 97u8, 99u8, 104u8, 101u8], seq![116u8, 97u8, 114u8, 97u8, 104u8], seq![103u8, 105u8, 116u8, 95u8, 99u8, 108u8, 111u8, 110u8, 101u8, 121u8, 95u8, 116u8, 104u8, 105u8, 110u8, 103u8, 121u8])
}

/// The build cache directory under `home`, over bytes.
pub open spec fn cache_dir_bytes_spec(home: Seq<u8>) -> Seq<u8> {
    let (a, b, c) = cache_components();
    path_join_bytes_spec(path_join_bytes_spec(path_join_bytes_spec(home, a), b), c)
}

/// The build cache directory under `home`, over the bytes of `home`,
/// which need not be UTF-8.
pub fn cache_dir_bytes(home: &[u8]) -> (r: Vec<u8>)
    ensures
        r@ == cache_dir_bytes_spec(home@),
{
    let a: Vec<u8> = vec![46u8, 99u8, 97u8, 99u8, 104u8, 101u8];
    let b: Vec<u8> = vec![116u8, 97u8, 114u8, 97u8, 104u8];
    let c: Vec<u8> = vec![103u8, 105u8, 116u8, 95u8, 99u8, 108u8, 111u8, 110u8, 101u8, 121u8, 95u8, 116u8, 104u8, 105u8, 110u8, 103u8, 121u8];
    let ha = path_join_bytes(home, a.as_slice());
    let hab = path_join_bytes(ha.as_slice(), b.as_slice());
    path_join_bytes(hab.as_slice(), c.as_slice())
}

/// The pacman search pattern that matches the package `pack` by its
/// exact name: `^pack$`.
pub fn exact_name_pattern(pack: &str) -> (r: String)
    ensures
        r@ == "^"@ + pack@ + "$"@,
{
    let mut r = String::from_str("^");
    r.append(pack);
    r.append("$");
    r
}

/// The pacman search pattern that `-Sy pack` looks the package up with:
/// `^pack ` (a trailing space).
pub fn sync_name_pattern(pack: &str) -> (r: String)
    ensures
        r@ == "^"@ + pack@ + " "@,
{
    let mut r = String::from_str("^");
    r.append(pack);
    r.append(" ");
    r
}

/// Joining keeps both parts: a relative `part` is put after `base` with at
/// most one `/` between them, and exactly one where `base` is non-empty
/// and does not end in `/`; an absolute `part` stands alone.
pub proof fn lemma_path_join_keeps_parts(base: Seq<char>, part: Seq<char>)
    ensures
        part.len() > 0 && part[0] == '/' ==> path_join_spec(base, part) == part,
        !(part.len() > 0 && part[0] == '/') ==> path_join_spec(base, part).take(base.len() as int) == base
            && path_join_spec(base, part).skip(path_join_spec(base, part).len() - part.len()) == part,
        !(part.len() > 0 && part[0] == '/') && base.len() > 0 && base.last() != '/' ==> path_join_spec(base, part).len()
            == base.len() + 1 + part.len() && path_join_spec(base, part)[base.len() as int] == '/',
        !(part.len() > 0 && part[0] == '/') && (base.len() == 0 || base.last() == '/') ==> path_join_spec(base, part)
            == base + part,
{
    reveal_strlit("/");
    let r = path_join_spec(base, part);
    if !(part.len() > 0 && part[0] == '/') {
        assert(r.take(base.len() as int) == base);
        assert(r.skip(r.len() - part.len()) == part);
    }
}

/// The cache directory of a home without a trailing `/` is
/// `home/.cache/tarah/git_cloney_thingy`, and of one with it
/// `home.cache/tarah/git_cloney_thingy`.
pub proof fn lemma_cache_dir_text(home: Seq<char>)
    ensures
        home.len() > 0 && home.last() != '/' ==> cache_dir_spec(home) == home + "/.cache/tarah/git_cloney_thingy"@,
        (home.len() == 0 || home.last() == '/') ==> cache_dir_spec(home) == home + ".cache/tarah/git_cloney_thingy"@,
{
    reveal_strlit("/");
    reveal_strlit(".cache");
    reveal_strlit("tarah");
    reveal_strlit("git_cloney_thingy");
    reveal_strlit("/.cache/tarah/git_cloney_thingy");
    reveal_strlit(".cache/tarah/git_cloney_thingy");
    let a = path_join_spec(home, ".cache"@);
    let b = path_join_spec(a, "tarah"@);
    assert(a.len() > 0 && a.last() == 'e');
    assert(b.len() > 0 && b.last() == 'h');
    if home.len() > 0 && home.last() != '/' {
        assert(cache_dir_spec(home) =~= home + "/.cache/tarah/git_cloney_thingy"@);
    } else {
        assert(cache_dir_spec(home) =~= home + ".cache/tarah/git_cloney_thingy"@);
    }
}

} // verus!
