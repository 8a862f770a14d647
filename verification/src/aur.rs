//! The AUR: where a package's sources and metadata live, and reading the
//! version out of the metadata service's reply.

use vstd::prelude::*;
use crate::json::{Json, JsonView, field, get_field, member, parse_json, parsed_json};

verus! {

/// The git URL of the AUR package `pack`.
pub open spec fn aur_git_url_spec(pack: Seq<char>) -> Seq<char> {
    "https://aur.archlinux.org/"@ + pack + ".git"@
}

/// The git URL of the AUR package `pack`.
pub fn aur_git_url(pack: &str) -> (r: String)
    ensures
        r@ == aur_git_url_spec(pack@),
{
    let mut r = String::from_str("https://aur.archlinux.org/");
    r.append(pack);
    r.append(".git");
    r
}

/// The address of the metadata of the AUR package `name`.
pub open spec fn aur_info_url_spec(name: Seq<char>) -> Seq<char> {
    "https://aur.archlinux.org/rpc/v5/info/"@ + name
}

/// The address of the metadata of the AUR package `name`.
pub fn aur_info_url(name: &str) -> (r: String)
    ensures
        r@ == aur_info_url_spec(name@),
{
    let mut r = String::from_str("https://aur.archlinux.org/rpc/v5/info/");
    r.append(name);
    r
}

/// The version in a metadata reply: `reply["results"][0]["Version"]`,
/// where `results` is a non-empty array and the version a string.
pub open spec fn reply_version(reply: JsonView) -> Option<Seq<char>> {
    match field(reply, "results"@) {
        JsonView::Array(items) => if items.len() > 0 {
            match field(items[0], "Version"@) {
                JsonView::Str(v) => Some(v),
                _ => None,
            }
        } else {
            None
        },
        _ => None,
    }
}

/// Why no version came out of a metadata reply.
#[derive(PartialEq, Eq, Debug, Clone, Copy)]
pub enum AurVersionError {
    /// The reply is not a JSON document.
    Malformed,
    /// The reply holds no version where one is looked for.
    VersionNotFound,
}

impl AurVersionError {
    /// The message that the error is reported with.
    pub fn message(&self) -> (r: String)
        ensures
            r@ == match self {
                AurVersionError::Malformed => "error decoding response body"@,
                AurVersionError::VersionNotFound => "Version nut fundz"@,
            },
    {
        match self {
            AurVersionError::Malformed => String::from_str("error decoding response body"),
            AurVersionError::VersionNotFound => String::from_str("Version nut fundz"),
        }
    }
}

/// The version in a metadata reply, if it holds one.
pub fn version_in_reply(reply: &Json) -> (r: Option<String>)
    ensures
        match r {
            Some(v) => reply_version(reply@) == Some(v@),
            None => reply_version(reply@) is None,
        },
{
    match get_field(reply, "results") {
        Some(Json::Array(items)) => {
            if items.len() > 0 {
                let first = &items[0];
                match get_field(first, "Version") {
                    Some(Json::Str(v)) => Some(v.clone()),
                    _ => None,
                }
            } else {
                None
            }
        },
        _ => None,
    }
}

/// The version that the AUR metadata reply `body` (its bytes) names: an
/// error where the body is not JSON, or holds no version.
pub fn get_aur_version(body: &[u8]) -> (r: Result<String, AurVersionError>)
    ensures
        match parsed_json(body@) {
            None => r == Err::<String, AurVersionError>(AurVersionError::Malformed),
            Some(reply) => match reply_version(reply) {
                Some(v) => r matches Ok(s) && s@ == v,
                None => r == Err::<String, AurVersionError>(AurVersionError::VersionNotFound),
            },
        },
{
    match parse_json(body) {
        Ok(reply) => match version_in_reply(&reply) {
            Some(v) => Ok(v),
            None => Err(AurVersionError::VersionNotFound),
        },
        Err(_) => Err(AurVersionError::Malformed),
    }
}

/// The git URL holds the whole package name, unchanged, between
/// `https://aur.archlinux.org/` and `.git`; so two packages never share a
/// URL.
pub proof fn lemma_aur_git_url_names_package(p: Seq<char>, q: Seq<char>)
    ensures
        aur_git_url_spec(p).len() == 26 + p.len() + 4,
        aur_git_url_spec(p).take(26) == "https://aur.archlinux.org/"@,
        aur_git_url_spec(p).subrange(26, 26 + p.len() as int) == p,
        aur_git_url_spec(p).skip(26 + p.len() as int) == ".git"@,
        aur_git_url_spec(p) == aur_git_url_spec(q) ==> p == q,
{
    reveal_strlit("https://aur.archlinux.org/");
    reveal_strlit(".git");
    let u = aur_git_url_spec(p);
    assert(u.take(26) == "https://aur.archlinux.org/"@);
    assert(u.subrange(26, 26 + p.len() as int) == p);
    assert(u.skip(26 + p.len() as int) == ".git"@);
    if u == aur_git_url_spec(q) {
        let w = aur_git_url_spec(q);
        assert(w.subrange(26, 26 + q.len() as int) == q);
    }
}

/// The metadata address holds the whole package name, unchanged, after
/// `https://aur.archlinux.org/rpc/v5/info/`; so two packages never share
/// one.
pub proof fn lemma_aur_info_url_names_package(p: Seq<char>, q: Seq<char>)
    ensures
        aur_info_url_spec(p).len() == 38 + p.len(),
        aur_info_url_spec(p).take(38) == "https://aur.archlinux.org/rpc/v5/info/"@,
        aur_info_url_spec(p).skip(38) == p,
        aur_info_url_spec(p) == aur_info_url_spec(q) ==> p == q,
{
    reveal_strlit("https://aur.archlinux.org/rpc/v5/info/");
    let u = aur_info_url_spec(p);
    assert(u.skip(38) == p);
    if u == aur_info_url_spec(q) {
        assert(aur_info_url_spec(q).skip(38) == q);
    }
}

/// Whenever `results` is a non-empty array whose first element has a
/// string member `Version`, that string is the version read, whatever
/// the element's other members; where `results` is missing, not an array
/// or empty, or the first element has no string `Version`, none is read.
pub proof fn lemma_reply_version_read(reply: JsonView)
    ensures
        ({
            let results = field(reply, "results"@);
            results is Array && results->Array_0.len() > 0 && field(results->Array_0[0], "Version"@) is Str
                ==> reply_version(reply) == Some(field(results->Array_0[0], "Version"@)->Str_0)
        }),
        ({
            let results = field(reply, "results"@);
            reply_version(reply) is Some ==> results is Array && results->Array_0.len() > 0 && field(
                results->Array_0[0],
                "Version"@,
            ) is Str
        }),
{
}

/// The member read for a key is the first member that has the key, and
/// `Null` where no member has it; other members make no difference.
pub proof fn lemma_member_is_first_match(members: Seq<(Seq<char>, JsonView)>, key: Seq<char>, i: int)
    requires
        0 <= i < members.len(),
        members[i].0 == key,
        forall|j: int| 0 <= j < i ==> (#[trigger] members[j]).0 != key,
    ensures
        member(members, key) == members[i].1,
    decreases i,
{
    if i > 0 {
        let rest = members.drop_first();
        assert forall|j: int| 0 <= j < i - 1 implies (#[trigger] rest[j]).0 != key by {
            assert(rest[j] == members[j + 1]);
        }
        lemma_member_is_first_match(rest, key, i - 1);
    }
}

/// A key that no member has reads as `Null`.
pub proof fn lemma_member_absent(members: Seq<(Seq<char>, JsonView)>, key: Seq<char>)
    requires
        forall|j: int| 0 <= j < members.len() ==> (#[trigger] members[j]).0 != key,
    ensures
        member(members, key) == JsonView::Null,
    decreases members.len(),
{
    if members.len() > 0 {
        let rest = members.drop_first();
        assert forall|j: int| 0 <= j < rest.len() implies (#[trigger] rest[j]).0 != key by {
            assert(rest[j] == members[j + 1]);
        }
        lemma_member_absent(rest, key);
    }
}

/// For a reply object whose members hold `results` once, as a non-empty
/// array whose first element is an object holding `Version` once as a
/// string `v`, the version read is `v`, whatever the other members.
pub proof fn lemma_reply_version_of_objects(
    top: Seq<(Seq<char>, JsonView)>,
    i: int,
    items: Seq<JsonView>,
    entry: Seq<(Seq<char>, JsonView)>,
    k: int,
    v: Seq<char>,
)
    requires
        0 <= i < top.len(),
        top[i] == ("results"@, JsonView::Array(items)),
        forall|j: int| 0 <= j < top.len() && j != i ==> (#[trigger] top[j]).0 != "results"@,
        items.len() > 0,
        items[0] == JsonView::Object(entry),
        0 <= k < entry.len(),
        entry[k] == ("Version"@, JsonView::Str(v)),
        forall|j: int| 0 <= j < entry.len() && j != k ==> (#[trigger] entry[j]).0 != "Version"@,
    ensures
        reply_version(JsonView::Object(top)) == Some(v),
{
    lemma_member_is_first_match(top, "results"@, i);
    lemma_member_is_first_match(entry, "Version"@, k);
    lemma_reply_version_read(JsonView::Object(top));
}

} // verus!
