//! Random Chrome user-agent strings.

use vstd::prelude::*;
use vstd::string::StringExecFns;
use rand::seq::SliceRandom;

verus! {

broadcast use vstd::string::group_string_axioms;

/// The WebKit version that every generated user agent names.
pub const WEBKIT_VERSION: &'static str = "537.36";

/// Chrome versions to pick from.
pub open spec fn chrome_versions_spec() -> Seq<Seq<char>> {
    seq![
        "120.0.0.0"@, "121.0.0.0"@, "122.0.0.0"@, "123.0.0.0"@,
        "124.0.0.0"@, "125.0.0.0"@, "126.0.0.0"@, "127.0.0.0"@,
        "128.0.0.0"@, "129.0.0.0"@, "130.0.0.0"@, "131.0.0.0"@,
        "132.0.0.0"@, "133.0.0.0"@, "134.0.0.0"@, "135.0.0.0"@,
    ]
}

/// Windows platform tokens.
pub open spec fn windows_platforms_spec() -> Seq<Seq<char>> {
    seq!["Windows NT 10.0; Win64; x64"@, "Windows NT 10.0; WOW64"@, "Windows NT 11.0; Win64; x64"@]
}

/// Linux platform tokens.
pub open spec fn linux_platforms_spec() -> Seq<Seq<char>> {
    seq!["X11; Linux x86_64"@, "X11; Ubuntu; Linux x86_64"@, "X11; Fedora; Linux x86_64"@]
}

/// macOS platform tokens.
pub open spec fn mac_platforms_spec() -> Seq<Seq<char>> {
    seq![
        "Macintosh; Intel Mac OS X 10_15_7"@,
        "Macintosh; Intel Mac OS X 13_0"@,
        "Macintosh; Intel Mac OS X 14_0"@,
    ]
}

/// All platform tokens: Windows, then Linux, then macOS.
pub open spec fn all_platforms_spec() -> Seq<Seq<char>> {
    windows_platforms_spec() + linux_platforms_spec() + mac_platforms_spec()
}

/// The user agent of a Chrome version on a platform.
pub open spec fn user_agent_text(platform: Seq<char>, chrome: Seq<char>) -> Seq<char> {
    "Mozilla/5.0 ("@ + platform + ") AppleWebKit/"@ + WEBKIT_VERSION@
        + " (KHTML, like Gecko) Chrome/"@ + chrome + " Safari/"@ + WEBKIT_VERSION@
}

/// `ua` is the user agent of one of the listed Chrome versions on one of the
/// listed platforms.
pub open spec fn is_generated_user_agent(ua: Seq<char>) -> bool {
    exists|p: Seq<char>, c: Seq<char>|
        all_platforms_spec().contains(p) && chrome_versions_spec().contains(c) && ua
            == #[trigger] user_agent_text(p, c)
}

#[verifier::external_type_specification]
#[verifier::external_body]
pub struct ExThreadRng(rand::rngs::ThreadRng);

/// Calls `rand::thread_rng`, the handle of the thread-local generator.
#[verifier::external_body]
fn thread_rng() -> rand::rngs::ThreadRng {
    rand::thread_rng()
}

/// Calls `SliceRandom::choose` on a slice of string slices.  Claims that the
/// result is `None` exactly when the slice is empty, and otherwise one of its
/// elements; which one is left to chance.
#[verifier::external_body]
fn choose_one<'a>(items: &[&'a str], rng: &mut rand::rngs::ThreadRng) -> (r: Option<&'a str>)
    ensures
        r is None <==> items@.len() == 0,
        r matches Some(s) ==> items.deep_view().contains(s@),
{
    items.choose(rng).copied()
}

/// The listed Chrome versions.
pub fn chrome_versions() -> (v: Vec<&'static str>)
    ensures
        v.deep_view() == chrome_versions_spec(),
{
    let v = vec![
        "120.0.0.0", "121.0.0.0", "122.0.0.0", "123.0.0.0",
        "124.0.0.0", "125.0.0.0", "126.0.0.0", "127.0.0.0",
        "128.0.0.0", "129.0.0.0", "130.0.0.0", "131.0.0.0",
        "132.0.0.0", "133.0.0.0", "134.0.0.0", "135.0.0.0",
    ];
    assert(v.deep_view() =~= chrome_versions_spec());
    v
}

/// The Windows platform tokens.
pub fn windows_platforms() -> (v: Vec<&'static str>)
    ensures
        v.deep_view() == windows_platforms_spec(),
{
    let v = vec!["Windows NT 10.0; Win64; x64", "Windows NT 10.0; WOW64", "Windows NT 11.0; Win64; x64"];
    assert(v.deep_view() =~= windows_platforms_spec());
    v
}

/// The Linux platform tokens.
pub fn linux_platforms() -> (v: Vec<&'static str>)
    ensures
        v.deep_view() == linux_platforms_spec(),
{
    let v = vec!["X11; Linux x86_64", "X11; Ubuntu; Linux x86_64", "X11; Fedora; Linux x86_64"];
    assert(v.deep_view() =~= linux_platforms_spec());
    v
}

/// The macOS platform tokens.
pub fn mac_platforms() -> (v: Vec<&'static str>)
    ensures
        v.deep_view() == mac_platforms_spec(),
{
    let v = vec![
        "Macintosh; Intel Mac OS X 10_15_7",
        "Macintosh; Intel Mac OS X 13_0",
        "Macintosh; Intel Mac OS X 14_0",
    ];
    assert(v.deep_view() =~= mac_platforms_spec());
    v
}

/// Appends the elements of `src` to `dst`, in order.
fn extend_strs(dst: &mut Vec<&'static str>, src: &Vec<&'static str>)
    ensures
        final(dst).deep_view() == old(dst).deep_view() + src.deep_view(),
{
    let ghost start = dst.deep_view();
    let mut i: usize = 0;
    while i < src.len()
        invariant
            i <= src.len(),
            dst.deep_view() == start + src.deep_view().take(i as int),
        decreases src.len() - i,
    {
        let ghost before = dst.deep_view();
        dst.push(src[i]);
        assert(dst.deep_view() =~= before.push(src@[i as int]@));
        assert(src.deep_view().take(i + 1) =~= src.deep_view().take(i as int).push(src@[i as int]@));
        assert(dst.deep_view() =~= start + src.deep_view().take(i + 1));
        i = i + 1;
    }
    assert(src.deep_view().take(src.len() as int) =~= src.deep_view());
}

/// All platform tokens: Windows, then Linux, then macOS.
pub fn all_platforms() -> (v: Vec<&'static str>)
    ensures
        v.deep_view() == all_platforms_spec(),
{
    let mut v = windows_platforms();
    let linux = linux_platforms();
    let mac = mac_platforms();
    extend_strs(&mut v, &linux);
    extend_strs(&mut v, &mac);
    v
}

/// The user agent of Chrome version `chrome` on platform `platform`.
pub fn format_user_agent(platform: &str, chrome: &str) -> (r: String)
    ensures
        r@ == user_agent_text(platform@, chrome@),
{
    let mut r = String::from_str("Mozilla/5.0 (");
    r.append(platform);
    r.append(") AppleWebKit/");
    r.append(WEBKIT_VERSION);
    r.append(" (KHTML, like Gecko) Chrome/");
    r.append(chrome);
    r.append(" Safari/");
    r.append(WEBKIT_VERSION);
    r
}

/// A user agent of a randomly chosen Chrome version on a randomly chosen
/// platform.
pub fn generate_user_agent() -> (r: String)
    ensures
        is_generated_user_agent(r@),
{
    let mut rng = thread_rng();
    let platforms = all_platforms();
    let versions = chrome_versions();
    proof {
        assert(platforms.deep_view().len() == 9);
        assert(versions.deep_view().len() == 16);
    }
    let platform = choose_one(platforms.as_slice(), &mut rng).unwrap();
    let chrome = choose_one(versions.as_slice(), &mut rng).unwrap();
    let r = format_user_agent(platform, chrome);
    assert(all_platforms_spec().contains(platform@) && chrome_versions_spec().contains(chrome@)
        && r@ == user_agent_text(platform@, chrome@));
    r
}

/// Every user agent has one layout, whatever the platform and version: the
/// platform in parentheses after `Mozilla/5.0`, WebKit 537.36 with the
/// `(KHTML, like Gecko)` token, the Chrome version, and Safari 537.36.
pub proof fn lemma_user_agent_layout(platform: Seq<char>, chrome: Seq<char>)
    ensures
        user_agent_text(platform, chrome) == "Mozilla/5.0 ("@ + platform
            + ") AppleWebKit/537.36 (KHTML, like Gecko) Chrome/"@ + chrome + " Safari/537.36"@,
{
    reveal_strlit("Mozilla/5.0 (");
    reveal_strlit(") AppleWebKit/");
    reveal_strlit("537.36");
    reveal_strlit(" (KHTML, like Gecko) Chrome/");
    reveal_strlit(" Safari/");
    reveal_strlit(") AppleWebKit/537.36 (KHTML, like Gecko) Chrome/");
    reveal_strlit(" Safari/537.36");
    assert(WEBKIT_VERSION@ == "537.36"@);
    assert(") AppleWebKit/"@ + "537.36"@ + " (KHTML, like Gecko) Chrome/"@
        =~= ") AppleWebKit/537.36 (KHTML, like Gecko) Chrome/"@);
    assert(" Safari/"@ + "537.36"@ =~= " Safari/537.36"@);
    assert(user_agent_text(platform, chrome) =~= "Mozilla/5.0 ("@ + platform
        + ") AppleWebKit/537.36 (KHTML, like Gecko) Chrome/"@ + chrome + " Safari/537.36"@);
}

} // verus!
