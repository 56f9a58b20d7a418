//! The request filter that is injected into the web view: which URL
//! signatures it blocks, and the script text it is built from.

use vstd::prelude::*;
use vstd::string::StrSliceExecFns;
use vstd::string::StringExecFns;
use crate::text::{
    trim, trim_str, replace_all, replace_str, occurs_in, is_white_space, lemma_trim_idempotent,
    lemma_replace_absent, is_upper, no_underscore, placeholder_shaped, may_follow_placeholder,
    lemma_skip_plain, lemma_skip_placeholder, lemma_replace_front,
};
use crate::json::{
    json_escape, json_escape_char, json_join, json_quote, hex_digit, json_string_array, to_json_string_array, read_json_string_array,
    lemma_json_string_array_reads_back,
};
use crate::encoding::{
    base64_text, base64_len_fits, encode_standard, is_base64_char, lemma_base64_alphabet,
};

verus! {

broadcast use vstd::string::group_string_axioms;

/// URL signatures that are blocked when no list of its own is configured.
pub open spec fn default_blocklist_spec() -> Seq<Seq<char>> {
    seq![
        "analytics"@, "yandex"@, "google-analytics"@, "facebook"@, "ads"@, "gtag"@,
        "track"@, "mixpanel"@, "apptracer"@, "perf/upload"@, "crashtoken"@, "sdkversion"@,
        "amplitude"@, "hotjar"@, "doubleclick"@, "googletagmanager"@, "segment"@,
        "matomo"@, "adsystem"@, "sdk-api"@, "perf/"@, "crash"@,
    ]
}

/// A trimmed line is an entry when it is not empty and not a `#` comment.
pub open spec fn is_entry(t: Seq<char>) -> bool {
    t.len() > 0 && t[0] != '#'
}

/// The trimmed entries of a list file's lines, in order.
pub open spec fn blocklist_entries(lines: Seq<Seq<char>>) -> Seq<Seq<char>>
    decreases lines.len(),
{
    if lines.len() == 0 {
        seq![]
    } else {
        let rest = blocklist_entries(lines.drop_last());
        let t = trim(lines.last());
        if is_entry(t) {
            rest.push(t)
        } else {
            rest
        }
    }
}

/// The list in effect: the file's entries, or the default list when the file
/// has none.
pub open spec fn effective_blocklist(lines: Seq<Seq<char>>) -> Seq<Seq<char>> {
    if blocklist_entries(lines).len() == 0 {
        default_blocklist_spec()
    } else {
        blocklist_entries(lines)
    }
}

/// The base64 text of a sound file, or nothing when it could not be read.
pub open spec fn sound_text(bytes: Option<Seq<u8>>) -> Seq<char> {
    match bytes {
        Some(b) => base64_text(b),
        None => seq![],
    }
}

/// Whether the base64 text of a sound fits in memory.
pub open spec fn sound_fits(bytes: Option<&[u8]>) -> bool {
    match bytes {
        Some(b) => base64_len_fits(b@.len()),
        None => true,
    }
}

/// The view of an optional byte slice.
pub open spec fn opt_bytes(bytes: Option<&[u8]>) -> Option<Seq<u8>> {
    match bytes {
        Some(b) => Some(b@),
        None => None,
    }
}

/// The filter script: the template with its placeholders filled in, one after
/// the other.
pub open spec fn filter_script_text(
    template: Seq<char>,
    blocklist: Seq<Seq<char>>,
    allow_sw: bool,
    notif: Seq<char>,
    ring: Seq<char>,
    recon: Seq<char>,
) -> Seq<char> {
    let s1 = replace_all(template, "__SIGNATURES__"@, json_string_array(blocklist));
    let s2 = replace_all(s1, "__ALLOW_SW__"@, if allow_sw { "true"@ } else { "false"@ });
    let s3 = replace_all(s2, "__NOTIF_B64__"@, notif);
    let s4 = replace_all(s3, "__RING_B64__"@, ring);
    replace_all(s4, "__RECON_B64__"@, recon)
}

/// The default list of blocked signatures.
pub fn default_blocklist() -> (v: Vec<String>)
    ensures
        v.deep_view() == default_blocklist_spec(),
{
    let mut v: Vec<String> = Vec::new();
    v.push(String::from_str("analytics"));
    v.push(String::from_str("yandex"));
    v.push(String::from_str("google-analytics"));
    v.push(String::from_str("facebook"));
    v.push(String::from_str("ads"));
    v.push(String::from_str("gtag"));
    v.push(String::from_str("track"));
    v.push(String::from_str("mixpanel"));
    v.push(String::from_str("apptracer"));
    v.push(String::from_str("perf/upload"));
    v.push(String::from_str("crashtoken"));
    v.push(String::from_str("sdkversion"));
    v.push(String::from_str("amplitude"));
    v.push(String::from_str("hotjar"));
    v.push(String::from_str("doubleclick"));
    v.push(String::from_str("googletagmanager"));
    v.push(String::from_str("segment"));
    v.push(String::from_str("matomo"));
    v.push(String::from_str("adsystem"));
    v.push(String::from_str("sdk-api"));
    v.push(String::from_str("perf/"));
    v.push(String::from_str("crash"));
    assert(v.deep_view() =~= default_blocklist_spec());
    v
}

/// The entries of a list file given as its lines: each line trimmed, blank
/// lines and lines starting with `#` left out.
pub fn blocklist_entries_of(lines: &[String]) -> (v: Vec<String>)
    ensures
        v.deep_view() == blocklist_entries(lines.deep_view()),
{
    let mut v: Vec<String> = Vec::new();
    let mut i: usize = 0;
    while i < lines.len()
        invariant
            i <= lines.len(),
            v.deep_view() == blocklist_entries(lines.deep_view().take(i as int)),
        decreases lines.len() - i,
    {
        let t = trim_str(lines[i].as_str());
        let ghost before = v.deep_view();
        proof {
            let ls = lines.deep_view();
            assert(ls.take(i + 1).drop_last() =~= ls.take(i as int));
            assert(ls.take(i + 1).last() == lines@[i as int]@);
        }
        let n = t.unicode_len();
        if n > 0 && t.get_char(0) != '#' {
            v.push(String::from_str(t));
            assert(v.deep_view() =~= before.push(t@));
        }
        i = i + 1;
    }
    assert(lines.deep_view().take(lines.len() as int) =~= lines.deep_view());
    v
}

/// The list of blocked signatures from a list file's lines; the default list
/// when the lines hold no entry (also when there is no file: no lines).
pub fn blocklist_from_lines(lines: &[String]) -> (v: Vec<String>)
    ensures
        v.deep_view() == effective_blocklist(lines.deep_view()),
{
    let entries = blocklist_entries_of(lines);
    if entries.len() == 0 {
        default_blocklist()
    } else {
        entries
    }
}

/// The base64 text of a sound file's bytes, or the empty string when the file
/// could not be read.
pub fn sound_base64(bytes: Option<&[u8]>) -> (r: String)
    requires
        sound_fits(bytes),
    ensures
        r@ == sound_text(opt_bytes(bytes)),
{
    match bytes {
        Some(b) => encode_standard(b),
        None => String::new(),
    }
}

/// The filter script built from its template: the blocked signatures as a JSON
/// array, the service-worker switch, and the three notification sounds.
pub fn build_filter_script(
    template: &str,
    blocklist: &[String],
    allow_sw: bool,
    notif: Option<&[u8]>,
    ring: Option<&[u8]>,
    recon: Option<&[u8]>,
) -> (r: String)
    requires
        sound_fits(notif),
        sound_fits(ring),
        sound_fits(recon),
    ensures
        r@ == filter_script_text(
            template@,
            blocklist.deep_view(),
            allow_sw,
            sound_text(opt_bytes(notif)),
            sound_text(opt_bytes(ring)),
            sound_text(opt_bytes(recon)),
        ),
{
    let sigs_json = match to_json_string_array(blocklist) {
        Ok(t) => t,
        Err(_) => String::from_str("[]"),
    };
    let notif_b64 = sound_base64(notif);
    let ring_b64 = sound_base64(ring);
    let recon_b64 = sound_base64(recon);
    proof {
        reveal_strlit("__SIGNATURES__");
        reveal_strlit("__ALLOW_SW__");
        reveal_strlit("__NOTIF_B64__");
        reveal_strlit("__RING_B64__");
        reveal_strlit("__RECON_B64__");
    }
    let s1 = replace_str(template, "__SIGNATURES__", sigs_json.as_str());
    let s2 = replace_str(s1.as_str(), "__ALLOW_SW__", if allow_sw { "true" } else { "false" });
    let s3 = replace_str(s2.as_str(), "__NOTIF_B64__", notif_b64.as_str());
    let s4 = replace_str(s3.as_str(), "__RING_B64__", ring_b64.as_str());
    replace_str(s4.as_str(), "__RECON_B64__", recon_b64.as_str())
}

/// The filter always has something to block: the list in effect is never
/// empty.
pub proof fn lemma_effective_blocklist_nonempty(lines: Seq<Seq<char>>)
    ensures
        effective_blocklist(lines).len() > 0,
{
    assert(default_blocklist_spec().len() == 22);
}

/// Every entry taken from a list file is a trimmed, non-empty line that is
/// not a comment, and the entries keep the order of the lines.
pub proof fn lemma_blocklist_entries_clean(lines: Seq<Seq<char>>)
    ensures
        forall|i: int| 0 <= i < blocklist_entries(lines).len() ==> {
            let e = #[trigger] blocklist_entries(lines)[i];
            &&& is_entry(e)
            &&& trim(e) == e
            &&& !is_white_space(e[0])
            &&& !is_white_space(e.last())
        },
        blocklist_entries(lines).len() <= lines.len(),
    decreases lines.len(),
{
    if lines.len() > 0 {
        let rest = blocklist_entries(lines.drop_last());
        lemma_blocklist_entries_clean(lines.drop_last());
        let t = trim(lines.last());
        lemma_trim_idempotent(lines.last());
        if is_entry(t) {
            assert forall|i: int| 0 <= i < blocklist_entries(lines).len() implies {
                let e = #[trigger] blocklist_entries(lines)[i];
                &&& is_entry(e)
                &&& trim(e) == e
                &&& !is_white_space(e[0])
                &&& !is_white_space(e.last())
            } by {
                if i < rest.len() {
                    assert(blocklist_entries(lines)[i] == rest[i]);
                } else {
                    assert(blocklist_entries(lines)[i] == t);
                }
            }
        }
    }
}

/// A template that holds none of the placeholders is the filter script
/// itself, whatever is filled in.
pub proof fn lemma_template_without_placeholders(
    template: Seq<char>,
    blocklist: Seq<Seq<char>>,
    allow_sw: bool,
    notif: Seq<char>,
    ring: Seq<char>,
    recon: Seq<char>,
)
    requires
        !occurs_in(template, "__SIGNATURES__"@),
        !occurs_in(template, "__ALLOW_SW__"@),
        !occurs_in(template, "__NOTIF_B64__"@),
        !occurs_in(template, "__RING_B64__"@),
        !occurs_in(template, "__RECON_B64__"@),
    ensures
        filter_script_text(template, blocklist, allow_sw, notif, ring, recon) == template,
{
    lemma_replace_absent(template, "__SIGNATURES__"@, json_string_array(blocklist));
    lemma_replace_absent(template, "__ALLOW_SW__"@, if allow_sw { "true"@ } else { "false"@ });
    lemma_replace_absent(template, "__NOTIF_B64__"@, notif);
    lemma_replace_absent(template, "__RING_B64__"@, ring);
    lemma_replace_absent(template, "__RECON_B64__"@, recon);
}

/// Every signature in effect, from the file or the default list, is a
/// trimmed, non-empty word that is not a comment.
pub proof fn lemma_effective_blocklist_clean(lines: Seq<Seq<char>>)
    ensures
        forall|i: int| 0 <= i < effective_blocklist(lines).len() ==> {
            let e = #[trigger] effective_blocklist(lines)[i];
            is_entry(e) && trim(e) == e
        },
{
    lemma_blocklist_entries_clean(lines);
    if blocklist_entries(lines).len() == 0 {
        let d = default_blocklist_spec();
        assert forall|i: int| 0 <= i < d.len() implies {
            let e = #[trigger] d[i];
            is_entry(e) && trim(e) == e
        } by {
            reveal_strlit("analytics");
            reveal_strlit("yandex");
            reveal_strlit("google-analytics");
            reveal_strlit("facebook");
            reveal_strlit("ads");
            reveal_strlit("gtag");
            reveal_strlit("track");
            reveal_strlit("mixpanel");
            reveal_strlit("apptracer");
            reveal_strlit("perf/upload");
            reveal_strlit("crashtoken");
            reveal_strlit("sdkversion");
            reveal_strlit("amplitude");
            reveal_strlit("hotjar");
            reveal_strlit("doubleclick");
            reveal_strlit("googletagmanager");
            reveal_strlit("segment");
            reveal_strlit("matomo");
            reveal_strlit("adsystem");
            reveal_strlit("sdk-api");
            reveal_strlit("perf/");
            reveal_strlit("crash");
            let e = d[i];
            assert(e.len() > 0);
            assert(!is_white_space(e[0]));
            assert(!is_white_space(e.last()));
            assert(e.skip(0) =~= e);
            assert(e.take(e.len() as int) =~= e);
        }
    }
}

/// What the filter script receives besides its template: the signatures as
/// a JSON array that reads back as exactly the list, so no signature can leave
/// its string literal, and sounds as text of base64 characters only.
pub proof fn lemma_filter_insertions(blocklist: Seq<Seq<char>>, sound: Option<Seq<u8>>)
    ensures
        read_json_string_array(json_string_array(blocklist)) == Some(blocklist),
        forall|i: int| 0 <= i < sound_text(sound).len() ==> is_base64_char(#[trigger] sound_text(sound)[i]),
{
    lemma_json_string_array_reads_back(blocklist);
    if let Some(b) = sound {
        lemma_base64_alphabet(b);
    }
}

/// The placeholders of the filter template, in the order they are filled in.
pub open spec fn placeholders() -> Seq<Seq<char>> {
    seq!["__SIGNATURES__"@, "__ALLOW_SW__"@, "__NOTIF_B64__"@, "__RING_B64__"@, "__RECON_B64__"@]
}

/// Template text between placeholders: no underscore, and not starting with
/// an upper-case letter, so that no placeholder can be read across its ends.
pub open spec fn is_piece(s: Seq<char>) -> bool {
    no_underscore(s) && (s.len() == 0 || !is_upper(s[0]))
}

/// `ps[0] + qs[0] + ps[1] + qs[1] + ... + ps[n]`: pieces with the items `qs`
/// between them.
pub open spec fn interleave(qs: Seq<Seq<char>>, ps: Seq<Seq<char>>) -> Seq<char>
    decreases qs.len(),
{
    if ps.len() == 0 {
        seq![]
    } else if qs.len() == 0 {
        ps[0]
    } else {
        ps[0] + qs[0] + interleave(qs.skip(1), ps.skip(1))
    }
}

proof fn lemma_placeholder_facts()
    ensures
        forall|i: int| 0 <= i < 5 ==> placeholder_shaped(#[trigger] placeholders()[i]),
        forall|i: int, j: int| 0 <= i < 5 && 0 <= j < 5 && i != j ==>
            #[trigger] placeholders()[i].take(4) != #[trigger] placeholders()[j].take(4),
{
    reveal_strlit("__SIGNATURES__");
    reveal_strlit("__ALLOW_SW__");
    reveal_strlit("__NOTIF_B64__");
    reveal_strlit("__RING_B64__");
    reveal_strlit("__RECON_B64__");
    let ph = placeholders();
    assert forall|i: int| 0 <= i < 5 implies placeholder_shaped(#[trigger] ph[i]) by {
        let q = ph[i];
        assert forall|k: int| 2 <= k < q.len() - 2 && q[k] == '_' implies #[trigger] is_upper(q[k + 1]) by {
        }
    }
    assert forall|i: int, j: int| 0 <= i < 5 && 0 <= j < 5 && i != j implies
        #[trigger] ph[i].take(4) != #[trigger] ph[j].take(4) by {
        if i == 3 && j == 4 || i == 4 && j == 3 {
            assert(ph[i].take(4)[3] != ph[j].take(4)[3]);
        } else {
            assert(ph[i].take(4)[2] != ph[j].take(4)[2]);
        }
    }
}

proof fn lemma_interleave_may_follow(qs: Seq<Seq<char>>, ps: Seq<Seq<char>>)
    requires
        ps.len() == qs.len() + 1,
        is_piece(ps[0]),
        qs.len() > 0 ==> placeholder_shaped(qs[0]),
    ensures
        may_follow_placeholder(interleave(qs, ps)),
{
    let t = interleave(qs, ps);
    if qs.len() == 0 {
    } else if ps[0].len() > 0 {
        assert(t[0] == ps[0][0]);
    } else {
        assert(t =~= qs[0] + interleave(qs.skip(1), ps.skip(1)));
        assert(t[0] == qs[0][0] && t[1] == qs[0][1]);
    }
}

proof fn lemma_interleave_unchanged(qs: Seq<Seq<char>>, ps: Seq<Seq<char>>, p: Seq<char>, r: Seq<char>)
    requires
        ps.len() == qs.len() + 1,
        forall|i: int| 0 <= i < ps.len() ==> is_piece(#[trigger] ps[i]),
        forall|i: int| 0 <= i < qs.len() ==> placeholder_shaped(#[trigger] qs[i]),
        forall|i: int| 0 <= i < qs.len() ==> (#[trigger] qs[i]).take(4) != p.take(4),
        placeholder_shaped(p),
    ensures
        replace_all(interleave(qs, ps), p, r) == interleave(qs, ps),
    decreases qs.len(),
{
    if qs.len() == 0 {
        lemma_skip_plain(ps[0], seq![], p, r);
        assert(ps[0] + Seq::<char>::empty() =~= ps[0]);
        assert(replace_all(Seq::<char>::empty(), p, r) == Seq::<char>::empty());
    } else {
        let qs1 = qs.skip(1);
        let ps1 = ps.skip(1);
        let rest = interleave(qs1, ps1);
        assert(ps1[0] == ps[1]);
        if qs1.len() > 0 {
            assert(qs1[0] == qs[1]);
        }
        lemma_interleave_may_follow(qs1, ps1);
        lemma_interleave_unchanged(qs1, ps1, p, r);
        lemma_skip_placeholder(qs[0], rest, p, r);
        lemma_skip_plain(ps[0], qs[0] + rest, p, r);
        assert(interleave(qs, ps) =~= ps[0] + (qs[0] + rest));
    }
}

proof fn lemma_interleave_pass(
    ins: Seq<Seq<char>>,
    phs: Seq<Seq<char>>,
    ps: Seq<Seq<char>>,
    r: Seq<char>,
)
    requires
        phs.len() > 0,
        ps.len() == ins.len() + phs.len() + 1,
        forall|i: int| 0 <= i < ps.len() ==> is_piece(#[trigger] ps[i]),
        forall|i: int| 0 <= i < ins.len() ==> no_underscore(#[trigger] ins[i]),
        forall|i: int| 0 <= i < phs.len() ==> placeholder_shaped(#[trigger] phs[i]),
        forall|i: int| 1 <= i < phs.len() ==> (#[trigger] phs[i]).take(4) != phs[0].take(4),
        no_underscore(r),
    ensures
        replace_all(interleave(ins + phs, ps), phs[0], r) == interleave(
            ins.push(r) + phs.skip(1),
            ps,
        ),
    decreases ins.len(),
{
    let p = phs[0];
    if ins.len() == 0 {
        let tail = interleave(phs.skip(1), ps.skip(1));
        assert(ins + phs =~= phs);
        assert(ins.push(r) + phs.skip(1) =~= seq![r] + phs.skip(1));
        assert((seq![r] + phs.skip(1)).skip(1) =~= phs.skip(1));
        assert forall|i: int| 0 <= i < ps.skip(1).len() implies is_piece(#[trigger] ps.skip(1)[i]) by {
            assert(ps.skip(1)[i] == ps[i + 1]);
        }
        assert forall|i: int| 0 <= i < phs.skip(1).len() implies placeholder_shaped(#[trigger] phs.skip(1)[i]) by {
            assert(phs.skip(1)[i] == phs[i + 1]);
        }
        assert forall|i: int| 0 <= i < phs.skip(1).len() implies (#[trigger] phs.skip(1)[i]).take(4) != p.take(4) by {
            assert(phs.skip(1)[i] == phs[i + 1]);
        }
        lemma_interleave_unchanged(phs.skip(1), ps.skip(1), p, r);
        lemma_replace_front(p, tail, r);
        lemma_skip_plain(ps[0], p + tail, p, r);
        assert(interleave(phs, ps) =~= ps[0] + (p + tail));
        assert(interleave(seq![r] + phs.skip(1), ps) =~= ps[0] + (r + tail));
    } else {
        let ins1 = ins.skip(1);
        let ps1 = ps.skip(1);
        assert((ins + phs).skip(1) =~= ins1 + phs);
        assert((ins + phs)[0] == ins[0]);
        assert((ins.push(r) + phs.skip(1)).skip(1) =~= ins1.push(r) + phs.skip(1));
        assert((ins.push(r) + phs.skip(1))[0] == ins[0]);
        assert forall|i: int| 0 <= i < ps1.len() implies is_piece(#[trigger] ps1[i]) by {
            assert(ps1[i] == ps[i + 1]);
        }
        assert forall|i: int| 0 <= i < ins1.len() implies no_underscore(#[trigger] ins1[i]) by {
            assert(ins1[i] == ins[i + 1]);
        }
        lemma_interleave_pass(ins1, phs, ps1, r);
        let head = ps[0] + ins[0];
        assert(no_underscore(head)) by {
            assert forall|i: int| 0 <= i < head.len() implies head[i] != '_' by {
                if i < ps[0].len() {
                    assert(head[i] == ps[0][i]);
                } else {
                    assert(head[i] == ins[0][i - ps[0].len()]);
                }
            }
        }
        lemma_placeholder_front(p);
        lemma_skip_plain(head, interleave(ins1 + phs, ps1), p, r);
        assert(interleave(ins + phs, ps) =~= head + interleave(ins1 + phs, ps1));
        assert(interleave(ins.push(r) + phs.skip(1), ps) =~= head + interleave(
            ins1.push(r) + phs.skip(1),
            ps1,
        ));
    }
}

proof fn lemma_placeholder_front(p: Seq<char>)
    requires
        placeholder_shaped(p),
    ensures
        p.len() > 0,
        p[0] == '_',
{
}

proof fn lemma_json_no_underscore(items: Seq<Seq<char>>)
    requires
        forall|i: int| 0 <= i < items.len() ==> no_underscore(#[trigger] items[i]),
    ensures
        no_underscore(json_string_array(items)),
{
    lemma_json_join_no_underscore(items);
    let t = json_string_array(items);
    let jn = json_join(items);
    assert forall|i: int| 0 <= i < t.len() implies t[i] != '_' by {
        if 0 < i < t.len() - 1 {
            assert(t[i] == jn[i - 1]);
        }
    }
}

proof fn lemma_json_escape_no_underscore(s: Seq<char>)
    requires
        no_underscore(s),
    ensures
        no_underscore(json_escape(s)),
    decreases s.len(),
{
    if s.len() > 0 {
        let t = s.skip(1);
        assert forall|i: int| 0 <= i < t.len() implies t[i] != '_' by {
            assert(t[i] == s[i + 1]);
        }
        lemma_json_escape_no_underscore(t);
        let e = json_escape_char(s[0]);
        assert(no_underscore(e)) by {
            let v = s[0] as u32;
            if v < 0x20 && s[0] != '\n' && s[0] != '\r' && s[0] != '\t' && v != 0x08 && v != 0x0c {
                assert(e[4] == hex_digit(v as int / 16));
                assert(e[5] == hex_digit(v as int % 16));
            }
        }
        let all = json_escape(s);
        assert(all =~= e + json_escape(t));
        assert forall|i: int| 0 <= i < all.len() implies all[i] != '_' by {
            if i < e.len() {
                assert(all[i] == e[i]);
            } else {
                assert(all[i] == json_escape(t)[i - e.len()]);
            }
        }
    }
}

proof fn lemma_json_join_no_underscore(items: Seq<Seq<char>>)
    requires
        forall|i: int| 0 <= i < items.len() ==> no_underscore(#[trigger] items[i]),
    ensures
        no_underscore(json_join(items)),
    decreases items.len(),
{
    if items.len() > 0 {
        lemma_json_escape_no_underscore(items[0]);
        let q = json_quote(items[0]);
        let esc = json_escape(items[0]);
        assert forall|i: int| 0 <= i < q.len() implies q[i] != '_' by {
            if 0 < i < q.len() - 1 {
                assert(q[i] == esc[i - 1]);
            }
        }
        if items.len() > 1 {
            let rest = items.skip(1);
            assert forall|i: int| 0 <= i < rest.len() implies no_underscore(#[trigger] rest[i]) by {
                assert(rest[i] == items[i + 1]);
            }
            lemma_json_join_no_underscore(rest);
            let all = json_join(items);
            let jr = json_join(rest);
            assert forall|i: int| 0 <= i < all.len() implies all[i] != '_' by {
                if i < q.len() {
                    assert(all[i] == q[i]);
                } else if i > q.len() {
                    assert(all[i] == jr[i - q.len() - 1]);
                }
            }
        }
    }
}

proof fn lemma_base64_no_underscore(b: Option<Seq<u8>>)
    ensures
        no_underscore(sound_text(b)),
{
    if let Some(x) = b {
        lemma_base64_alphabet(x);
        let t = sound_text(b);
        assert forall|i: int| 0 <= i < t.len() implies t[i] != '_' by {
            assert(is_base64_char(t[i]));
        }
    }
}

proof fn lemma_placeholders_from(k: int)
    requires
        0 <= k < 5,
    ensures
        forall|i: int| 0 <= i < placeholders().skip(k).len() ==> placeholder_shaped(
            #[trigger] placeholders().skip(k)[i],
        ),
        forall|i: int| 1 <= i < placeholders().skip(k).len() ==> (
        #[trigger] placeholders().skip(k)[i]).take(4) != placeholders().skip(k)[0].take(4),
{
    lemma_placeholder_facts();
    let ph = placeholders();
    assert forall|i: int| 0 <= i < ph.skip(k).len() implies placeholder_shaped(#[trigger] ph.skip(k)[i]) by {
        assert(ph.skip(k)[i] == ph[k + i]);
    }
    assert forall|i: int| 1 <= i < ph.skip(k).len() implies (#[trigger] ph.skip(k)[i]).take(4) != ph.skip(k)[0].take(4) by {
        assert(ph.skip(k)[i] == ph[k + i]);
        assert(ph.skip(k)[0] == ph[k]);
    }
}

/// The layout of the filter script: for a template made of the five
/// placeholders, in the order they are filled in, with pieces of text between
/// them that hold no underscore (and, after the first, do not start with an
/// upper-case letter), and for signatures without underscores, the script is
/// the same pieces with the signatures' JSON array, `true` or `false`, and the
/// three sounds' base64 text in place of the placeholders.  The JSON array
/// reads back as exactly the signatures, and the sounds are base64 characters
/// only.
pub proof fn lemma_filter_script_layout(
    pieces: Seq<Seq<char>>,
    blocklist: Seq<Seq<char>>,
    allow_sw: bool,
    notif: Option<Seq<u8>>,
    ring: Option<Seq<u8>>,
    recon: Option<Seq<u8>>,
)
    requires
        pieces.len() == 6,
        forall|i: int| 0 <= i < 6 ==> is_piece(#[trigger] pieces[i]),
        forall|i: int| 0 <= i < blocklist.len() ==> no_underscore(#[trigger] blocklist[i]),
    ensures
        filter_script_text(
            interleave(placeholders(), pieces),
            blocklist,
            allow_sw,
            sound_text(notif),
            sound_text(ring),
            sound_text(recon),
        ) == interleave(
            seq![
                json_string_array(blocklist),
                if allow_sw { "true"@ } else { "false"@ },
                sound_text(notif),
                sound_text(ring),
                sound_text(recon),
            ],
            pieces,
        ),
        read_json_string_array(json_string_array(blocklist)) == Some(blocklist),
        forall|i: int| 0 <= i < sound_text(notif).len() ==> is_base64_char(#[trigger] sound_text(notif)[i]),
        forall|i: int| 0 <= i < sound_text(ring).len() ==> is_base64_char(#[trigger] sound_text(ring)[i]),
        forall|i: int| 0 <= i < sound_text(recon).len() ==> is_base64_char(#[trigger] sound_text(recon)[i]),
{
    lemma_filter_insertions(blocklist, notif);
    lemma_filter_insertions(blocklist, ring);
    lemma_filter_insertions(blocklist, recon);
    lemma_placeholder_facts();
    lemma_json_no_underscore(blocklist);
    lemma_base64_no_underscore(notif);
    lemma_base64_no_underscore(ring);
    lemma_base64_no_underscore(recon);
    reveal_strlit("true");
    reveal_strlit("false");
    let ph = placeholders();
    let j = json_string_array(blocklist);
    let tf = if allow_sw { "true"@ } else { "false"@ };
    let n = sound_text(notif);
    let g = sound_text(ring);
    let c = sound_text(recon);
    let e = Seq::<Seq<char>>::empty();
    assert(no_underscore(tf));
    lemma_placeholders_from(0);
    lemma_placeholders_from(1);
    lemma_placeholders_from(2);
    lemma_placeholders_from(3);
    lemma_placeholders_from(4);
    assert(e + ph.skip(0) =~= ph);
    assert(ph.skip(0)[0] == "__SIGNATURES__"@);
    lemma_interleave_pass(e, ph.skip(0), pieces, j);
    let i1 = seq![j];
    assert(e.push(j) + ph.skip(0).skip(1) =~= i1 + ph.skip(1));
    assert(ph.skip(1)[0] == "__ALLOW_SW__"@);
    lemma_interleave_pass(i1, ph.skip(1), pieces, tf);
    let i2 = seq![j, tf];
    assert(i1.push(tf) + ph.skip(1).skip(1) =~= i2 + ph.skip(2));
    assert(ph.skip(2)[0] == "__NOTIF_B64__"@);
    lemma_interleave_pass(i2, ph.skip(2), pieces, n);
    let i3 = seq![j, tf, n];
    assert(i2.push(n) + ph.skip(2).skip(1) =~= i3 + ph.skip(3));
    assert(ph.skip(3)[0] == "__RING_B64__"@);
    lemma_interleave_pass(i3, ph.skip(3), pieces, g);
    let i4 = seq![j, tf, n, g];
    assert(i3.push(g) + ph.skip(3).skip(1) =~= i4 + ph.skip(4));
    assert(ph.skip(4)[0] == "__RECON_B64__"@);
    lemma_interleave_pass(i4, ph.skip(4), pieces, c);
    assert(i4.push(c) + ph.skip(4).skip(1) =~= seq![j, tf, n, g, c]);
}

/// The trimming of each line.
pub open spec fn trim_line() -> spec_fn(Seq<char>) -> Seq<char> {
    |l: Seq<char>| trim(l)
}

/// Whether a trimmed line is an entry.
pub open spec fn entry_test() -> spec_fn(Seq<char>) -> bool {
    |t: Seq<char>| is_entry(t)
}

/// Whether a line, once trimmed, is an entry.
pub open spec fn line_test() -> spec_fn(Seq<char>) -> bool {
    |l: Seq<char>| is_entry(trim(l))
}

/// The entries of a list file are its lines, trimmed, with exactly those kept
/// that are not empty and do not start with `#`, in their order: every such
/// line gives an entry, there are as many entries as such lines, and nothing
/// else is an entry.
pub proof fn lemma_blocklist_entries_keep_every_entry(lines: Seq<Seq<char>>)
    ensures
        blocklist_entries(lines) == lines.map_values(trim_line()).filter(entry_test()),
        blocklist_entries(lines).len() == lines.filter(line_test()).len(),
        forall|i: int| 0 <= i < lines.len() && is_entry(trim(#[trigger] lines[i])) ==>
            blocklist_entries(lines).contains(trim(lines[i])),
        forall|k: int| 0 <= k < blocklist_entries(lines).len() ==> is_entry(
            #[trigger] blocklist_entries(lines)[k],
        ),
    decreases lines.len(),
{
    reveal(Seq::filter);
    if lines.len() > 0 {
        let init = lines.drop_last();
        lemma_blocklist_entries_keep_every_entry(init);
        assert(lines.drop_last() == init);
        let mapped = lines.map_values(trim_line());
        assert(mapped.drop_last() =~= init.map_values(trim_line()));
        assert(mapped.last() == trim(lines.last()));
        let e = blocklist_entries(lines);
        let e0 = blocklist_entries(init);
        assert forall|i: int| 0 <= i < lines.len() && is_entry(trim(#[trigger] lines[i])) implies e.contains(
            trim(lines[i]),
        ) by {
            if i < lines.len() - 1 {
                assert(init[i] == lines[i]);
                let k = choose|k: int| 0 <= k < e0.len() && e0[k] == trim(init[i]);
                assert(e[k] == e0[k]);
            } else {
                assert(e[e.len() - 1] == trim(lines[i]));
            }
        }
        assert forall|k: int| 0 <= k < e.len() implies is_entry(#[trigger] e[k]) by {
            if k < e0.len() {
                assert(e[k] == e0[k]);
            }
        }
    } else {
        assert(lines.map_values(trim_line()) =~= Seq::<Seq<char>>::empty());
    }
}

/// A list file with entries is used as it is; only a file without any entry
/// falls back to the default list.
pub proof fn lemma_effective_blocklist_choice(lines: Seq<Seq<char>>)
    ensures
        blocklist_entries(lines).len() > 0 ==> effective_blocklist(lines) == blocklist_entries(lines),
        blocklist_entries(lines).len() == 0 ==> effective_blocklist(lines) == default_blocklist_spec(),
        (forall|i: int| 0 <= i < lines.len() ==> !is_entry(trim(#[trigger] lines[i])))
            ==> effective_blocklist(lines) == default_blocklist_spec(),
{
    lemma_blocklist_entries_keep_every_entry(lines);
    if blocklist_entries(lines).len() > 0 {
        let e = blocklist_entries(lines);
        assert(is_entry(e[0]));
        if forall|i: int| 0 <= i < lines.len() ==> !is_entry(trim(#[trigger] lines[i])) {
            lemma_entries_come_from_lines(lines);
            let i = choose|i: int| 0 <= i < lines.len() && e[0] == trim(lines[i]);
            assert(!is_entry(trim(lines[i])));
        }
    }
}

proof fn lemma_entries_come_from_lines(lines: Seq<Seq<char>>)
    ensures
        forall|k: int| 0 <= k < blocklist_entries(lines).len() ==> exists|i: int|
            0 <= i < lines.len() && #[trigger] blocklist_entries(lines)[k] == trim(lines[i]),
    decreases lines.len(),
{
    if lines.len() > 0 {
        let init = lines.drop_last();
        lemma_entries_come_from_lines(init);
        let e = blocklist_entries(lines);
        let e0 = blocklist_entries(init);
        assert forall|k: int| 0 <= k < e.len() implies exists|i: int|
            0 <= i < lines.len() && #[trigger] e[k] == trim(lines[i]) by {
            if k < e0.len() {
                assert(e[k] == e0[k]);
                let i = choose|i: int| 0 <= i < init.len() && e0[k] == trim(init[i]);
                assert(init[i] == lines[i]);
            } else {
                assert(e[k] == trim(lines[lines.len() - 1]));
            }
        }
    }
}

} // verus!
