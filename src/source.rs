//! Source sites: URL normalization and the choice of extraction adapter.
use vstd::prelude::*;
use crate::text::{chars_of, contains_chars, has_substring, matches_at, occurs_at};

verus! {

/// The Thai manga site's domain as written in its native script.
pub open spec fn native_alias() -> Seq<char> {
    seq!['ส', 'ด', 'ใ', 'ส', 'เ', 'ม', 'ะ', '.', 'c', 'o', 'm']
}

/// The same domain in its ASCII-compatible encoding, the form that is stored and matched.
pub open spec fn ascii_alias() -> Seq<char> {
    seq![
        'x', 'n', '-', '-', 'l', '3', 'c', '0', 'a', 'z', 'a', 'b', '5', 'a', '2', 'g', 't', 'a',
        '.', 'c', 'o', 'm',
    ]
}

pub open spec fn sing_manga_domain() -> Seq<char> {
    seq!['s', 'i', 'n', 'g', '-', 'm', 'a', 'n', 'g', 'a', '.', 'c', 'o', 'm']
}

/// `u` with every occurrence of the native-script domain, read left to right, replaced by its
/// ASCII-compatible encoding.
pub open spec fn normalize(u: Seq<char>) -> Seq<char>
    decreases u.len(),
{
    if u.len() == 0 {
        u
    } else if occurs_at(u, native_alias(), 0) {
        ascii_alias() + normalize(u.subrange(11, u.len() as int))
    } else {
        seq![u[0]] + normalize(u.subrange(1, u.len() as int))
    }
}

/// A source-site family; each has its own extraction adapter.
#[derive(Clone, Copy, Debug, PartialEq, Eq, Structural)]
pub enum Source {
    SingManga,
    ThaiManga,
}

/// The adapter for a URL that is already normalized.
pub open spec fn source_of_normalized(u: Seq<char>) -> Option<Source> {
    if has_substring(u, sing_manga_domain()) {
        Some(Source::SingManga)
    } else if has_substring(u, ascii_alias()) {
        Some(Source::ThaiManga)
    } else {
        None
    }
}

/// The adapter for any URL: chosen on its normalized form alone.
pub open spec fn source_for(url: Seq<char>) -> Option<Source> {
    source_of_normalized(normalize(url))
}

fn native_alias_text() -> (r: &'static str)
    ensures
        r@ == native_alias(),
{
    proof {
        reveal_strlit("สดใสเมะ.com");
    }
    let r = "สดใสเมะ.com";
    assert(r@ =~= native_alias());
    r
}

fn ascii_alias_text() -> (r: &'static str)
    ensures
        r@ == ascii_alias(),
{
    proof {
        reveal_strlit("xn--l3c0azab5a2gta.com");
    }
    let r = "xn--l3c0azab5a2gta.com";
    assert(r@ =~= ascii_alias());
    r
}

fn sing_manga_text() -> (r: &'static str)
    ensures
        r@ == sing_manga_domain(),
{
    proof {
        reveal_strlit("sing-manga.com");
    }
    let r = "sing-manga.com";
    assert(r@ =~= sing_manga_domain());
    r
}

/// The canonical form of a URL: the native-script domain alias replaced by its ASCII-compatible
/// encoding, so that two spellings of one site compare equal.
pub fn normalize_url(url: &str) -> (r: String)
    ensures
        r@ == normalize(url@),
{
    let cs = chars_of(url);
    let native = chars_of(native_alias_text());
    let mut out = String::new();
    let mut i: usize = 0;
    assert(cs@.subrange(0, cs@.len() as int) =~= cs@);
    assert(out@ + normalize(cs@) =~= normalize(cs@));
    while i < cs.len()
        invariant
            cs@ == url@,
            native@ == native_alias(),
            i <= cs.len(),
            normalize(cs@) == out@ + normalize(cs@.subrange(i as int, cs@.len() as int)),
        decreases cs.len() - i,
    {
        let ghost rest = cs@.subrange(i as int, cs@.len() as int);
        if matches_at(&cs, &native, i) {
            assert(rest.subrange(0, 11) =~= cs@.subrange(i as int, i + 11));
            assert(rest.subrange(11, rest.len() as int) =~= cs@.subrange(i + 11, cs@.len() as int));
            out.append(ascii_alias_text());
            i = i + 11;
            assert(normalize(cs@) == out@ + normalize(cs@.subrange(i as int, cs@.len() as int)));
        } else {
            assert(rest.len() >= 11 ==> rest.subrange(0, 11) =~= cs@.subrange(i as int, i + 11));
            assert(rest.subrange(1, rest.len() as int) =~= cs@.subrange(i + 1, cs@.len() as int));
            let piece = url.substring_char(i, i + 1);
            assert(piece@ =~= seq![rest[0]]);
            out.append(piece);
            i = i + 1;
            assert(normalize(cs@) == out@ + normalize(cs@.subrange(i as int, cs@.len() as int)));
        }
    }
    assert(cs@.subrange(i as int, cs@.len() as int) =~= Seq::<char>::empty());
    assert(out@ + Seq::<char>::empty() =~= out@);
    out
}

impl Source {
    /// The adapter that handles `url`, chosen on its normalized form; `None` for a URL of no
    /// supported site.
    pub fn for_url(url: &str) -> (r: Option<Source>)
        ensures
            r == source_for(url@),
    {
        let normalized = normalize_url(url);
        let cs = chars_of(normalized.as_str());
        let sing = chars_of(sing_manga_text());
        if contains_chars(&cs, &sing) {
            return Some(Source::SingManga);
        }
        let thai = chars_of(ascii_alias_text());
        if contains_chars(&cs, &thai) {
            Some(Source::ThaiManga)
        } else {
            None
        }
    }

    /// The `Accept-Language` header value that the site is asked with: English for the
    /// English-language site, Thai first for the Thai one.
    pub fn accept_language(&self) -> (r: &'static str)
        ensures
            r@ == match self {
                Source::SingManga => "en-US,en;q=0.9"@,
                Source::ThaiManga => "th-TH,th;q=0.9,en;q=0.8"@,
            },
    {
        match self {
            Source::SingManga => "en-US,en;q=0.9",
            Source::ThaiManga => "th-TH,th;q=0.9,en;q=0.8",
        }
    }
}

/// A text whose characters all differ from the first character of the native-script alias goes
/// through normalization unchanged.
proof fn lemma_normalize_passes(a: Seq<char>, rest: Seq<char>)
    requires
        forall|i: int| 0 <= i < a.len() ==> #[trigger] a[i] != native_alias()[0],
    ensures
        normalize(a + rest) == a + normalize(rest),
    decreases a.len(),
{
    if a.len() > 0 {
        let x = a + rest;
        assert(x[0] == a[0]);
        assert(!occurs_at(x, native_alias(), 0)) by {
            if occurs_at(x, native_alias(), 0) {
                assert(x.subrange(0, 11)[0] == x[0]);
            }
        }
        assert(x.subrange(1, x.len() as int) =~= a.subrange(1, a.len() as int) + rest);
        lemma_normalize_passes(a.subrange(1, a.len() as int), rest);
        assert(seq![a[0]] + a.subrange(1, a.len() as int) =~= a);
        assert(seq![a[0]] + (a.subrange(1, a.len() as int) + normalize(rest)) =~= a + normalize(
            rest,
        ));
    } else {
        assert(a + rest =~= rest);
        assert(a + normalize(rest) =~= normalize(rest));
    }
}

proof fn lemma_ascii_avoids_native_start()
    ensures
        forall|i: int| 0 <= i < ascii_alias().len() ==> #[trigger] ascii_alias()[i]
            != native_alias()[0],
{
}

/// The native-script alias does not overlap itself: no shift of it agrees with its first two
/// characters.
proof fn lemma_native_no_overlap()
    ensures
        forall|m: int|
            1 <= m < 10 ==> !(#[trigger] native_alias()[m] == native_alias()[0] && native_alias()[m
                + 1] == native_alias()[1]),
        native_alias()[10] != native_alias()[0],
{
    let n = native_alias();
    assert(n[0] == 'ส' && n[1] == 'ด' && n[2] == 'ใ' && n[3] == 'ส' && n[4] == 'เ' && n[5] == 'ม');
    assert(n[6] == 'ะ' && n[7] == '.' && n[8] == 'c' && n[9] == 'o' && n[10] == 'm');
}

/// Where the native-script alias follows a short prefix, the text cannot start with the alias.
proof fn lemma_native_not_at_start(prefix: Seq<char>, suffix: Seq<char>)
    requires
        0 < prefix.len() < 11,
    ensures
        !occurs_at(prefix + native_alias() + suffix, native_alias(), 0),
{
    let x = prefix + native_alias() + suffix;
    let m = prefix.len() as int;
    lemma_native_no_overlap();
    if occurs_at(x, native_alias(), 0) {
        let w = x.subrange(0, 11);
        assert(w == native_alias());
        assert(x[m] == native_alias()[0]);
        assert(w[m] == x[m]);
        if m < 10 {
            assert(x[m + 1] == native_alias()[1]);
            assert(w[m + 1] == x[m + 1]);
        }
    }
}

/// Where the ASCII alias follows a short prefix, the text cannot start with the native-script
/// alias, which holds no `x`.
proof fn lemma_ascii_not_at_start(prefix: Seq<char>, suffix: Seq<char>)
    requires
        0 < prefix.len() < 11,
    ensures
        !occurs_at(prefix + ascii_alias() + suffix, native_alias(), 0),
{
    let y = prefix + ascii_alias() + suffix;
    let m = prefix.len() as int;
    if occurs_at(y, native_alias(), 0) {
        assert(y[m] == ascii_alias()[0]);
        assert(y.subrange(0, 11)[m] == y[m]);
    }
}

/// Writing a site's domain in its native script or in its ASCII-compatible encoding makes no
/// difference: the two URLs normalize to the same text and so select the same adapter.
pub proof fn lemma_alias_spellings_agree(prefix: Seq<char>, suffix: Seq<char>)
    ensures
        normalize(prefix + native_alias() + suffix) == normalize(prefix + ascii_alias() + suffix),
        source_for(prefix + native_alias() + suffix) == source_for(prefix + ascii_alias() + suffix),
    decreases prefix.len(),
{
    let x = prefix + native_alias() + suffix;
    let y = prefix + ascii_alias() + suffix;
    let m = prefix.len() as int;
    if m == 0 {
        assert(x =~= native_alias() + suffix);
        assert(y =~= ascii_alias() + suffix);
        assert(x.subrange(0, 11) =~= native_alias());
        assert(x.subrange(11, x.len() as int) =~= suffix);
        lemma_ascii_avoids_native_start();
        lemma_normalize_passes(ascii_alias(), suffix);
    } else {
        if m >= 11 {
            assert(x.subrange(0, 11) =~= prefix.subrange(0, 11));
            assert(y.subrange(0, 11) =~= prefix.subrange(0, 11));
        } else {
            lemma_native_not_at_start(prefix, suffix);
            lemma_ascii_not_at_start(prefix, suffix);
        }
        if occurs_at(x, native_alias(), 0) {
            let p = prefix.subrange(11, m);
            assert(x.subrange(11, x.len() as int) =~= p + native_alias() + suffix);
            assert(y.subrange(11, y.len() as int) =~= p + ascii_alias() + suffix);
            lemma_alias_spellings_agree(p, suffix);
        } else {
            let p = prefix.subrange(1, m);
            assert(x[0] == y[0]);
            assert(x.subrange(1, x.len() as int) =~= p + native_alias() + suffix);
            assert(y.subrange(1, y.len() as int) =~= p + ascii_alias() + suffix);
            lemma_alias_spellings_agree(p, suffix);
        }
    }
}


/// `s` holds no occurrence of the native-script alias.
pub open spec fn free_of_native(s: Seq<char>) -> bool {
    forall|i: int| !#[trigger] occurs_at(s, native_alias(), i)
}

/// Text without the native-script alias is already normal.
proof fn lemma_free_is_normal(s: Seq<char>)
    requires
        free_of_native(s),
    ensures
        normalize(s) == s,
    decreases s.len(),
{
    if s.len() > 0 {
        let t = s.subrange(1, s.len() as int);
        assert(!occurs_at(s, native_alias(), 0));
        assert forall|i: int| !#[trigger] occurs_at(t, native_alias(), i) by {
            if occurs_at(t, native_alias(), i) {
                assert(s.subrange(i + 1, i + 1 + 11) =~= t.subrange(i, i + 11));
                assert(occurs_at(s, native_alias(), i + 1));
            }
        }
        lemma_free_is_normal(t);
        assert(seq![s[0]] + t =~= s);
    }
}

/// Where the normal form of `v` starts with `p`, and `p` holds no `x` (the first character
/// of the ASCII alias), `v` itself starts with `p`.
proof fn lemma_normal_prefix(v: Seq<char>, p: Seq<char>)
    requires
        p.len() <= normalize(v).len(),
        normalize(v).subrange(0, p.len() as int) == p,
        forall|i: int| 0 <= i < p.len() ==> #[trigger] p[i] != ascii_alias()[0],
    ensures
        p.len() <= v.len(),
        v.subrange(0, p.len() as int) == p,
    decreases p.len(),
{
    if p.len() == 0 {
        assert(v.subrange(0, 0) =~= p);
    } else {
        let n = normalize(v);
        assert(n.subrange(0, p.len() as int)[0] == n[0]);
        assert(v.len() > 0);
        if occurs_at(v, native_alias(), 0) {
            assert(n[0] == ascii_alias()[0]);
            assert(false);
        } else {
            let w = v.subrange(1, v.len() as int);
            let q = p.subrange(1, p.len() as int);
            assert(n == seq![v[0]] + normalize(w));
            assert(normalize(w).subrange(0, q.len() as int) =~= n.subrange(0, p.len() as int).subrange(
                1,
                p.len() as int,
            ));
            lemma_normal_prefix(w, q);
            assert(v.subrange(0, p.len() as int) =~= seq![v[0]] + w.subrange(0, q.len() as int));
            assert(p =~= seq![p[0]] + q);
        }
    }
}

/// Normalized text holds no native-script alias.
proof fn lemma_normal_is_free(u: Seq<char>)
    ensures
        free_of_native(normalize(u)),
    decreases u.len(),
{
    if u.len() > 0 {
        let n = normalize(u);
        if occurs_at(u, native_alias(), 0) {
            let x = normalize(u.subrange(11, u.len() as int));
            lemma_normal_is_free(u.subrange(11, u.len() as int));
            lemma_ascii_avoids_native_start();
            assert forall|i: int| !#[trigger] occurs_at(n, native_alias(), i) by {
                if occurs_at(n, native_alias(), i) {
                    if i >= 22 {
                        assert(x.subrange(i - 22, i - 22 + 11) =~= n.subrange(i, i + 11));
                        assert(occurs_at(x, native_alias(), i - 22));
                    } else {
                        assert(n.subrange(i, i + 11)[0] == n[i]);
                        assert(n[i] == ascii_alias()[i]);
                    }
                }
            }
        } else {
            let w = u.subrange(1, u.len() as int);
            let x = normalize(w);
            lemma_normal_is_free(w);
            assert(n == seq![u[0]] + x);
            assert forall|i: int| !#[trigger] occurs_at(n, native_alias(), i) by {
                if occurs_at(n, native_alias(), i) {
                    if i >= 1 {
                        assert(x.subrange(i - 1, i - 1 + 11) =~= n.subrange(i, i + 11));
                        assert(occurs_at(x, native_alias(), i - 1));
                    } else {
                        let p = native_alias().subrange(1, 11);
                        lemma_native_tail_avoids_x();
                        assert(x.subrange(0, 10) =~= n.subrange(0, 11).subrange(1, 11));
                        lemma_normal_prefix(w, p);
                        assert(u.subrange(0, 11) =~= seq![u[0]] + w.subrange(0, 10));
                        assert(n.subrange(0, 11)[0] == n[0]);
                        assert(u.subrange(0, 11) =~= native_alias());
                    }
                }
            }
        }
    }
}

proof fn lemma_native_tail_avoids_x()
    ensures
        forall|i: int| 0 <= i < 10 ==> #[trigger] native_alias().subrange(1, 11)[i] != ascii_alias()[0],
{
    let n = native_alias();
    assert(n[1] == 'ด' && n[2] == 'ใ' && n[3] == 'ส' && n[4] == 'เ' && n[5] == 'ม');
    assert(n[6] == 'ะ' && n[7] == '.' && n[8] == 'c' && n[9] == 'o' && n[10] == 'm');
}

/// Normalizing is idempotent: a stored, already normalized URL is its own normal form, and so
/// selects the same adapter as the URL it was made from.
pub proof fn lemma_normalize_idempotent(url: Seq<char>)
    ensures
        normalize(normalize(url)) == normalize(url),
        source_for(normalize(url)) == source_for(url),
{
    lemma_normal_is_free(url);
    lemma_free_is_normal(normalize(url));
}

/// URLs with the same normal form select the same adapter.
pub proof fn lemma_selection_by_normal_form(u1: Seq<char>, u2: Seq<char>)
    requires
        normalize(u1) == normalize(u2),
    ensures
        source_for(u1) == source_for(u2),
{
}

} // verus!
