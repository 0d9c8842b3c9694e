use vstd::prelude::*;
use crate::text::{char_is_whitespace, chars_of, is_whitespace, trim_str, trim_text};

verus! {

broadcast use vstd::seq_lib::group_seq_properties;

/// What `str::to_lowercase` gives for a text.
pub uninterp spec fn lowercase_of(s: Seq<char>) -> Seq<char>;

/// Calls `str::to_lowercase` (std). The contract claims only that the
/// result is the text named `lowercase_of` for the argument: the same text
/// always lowers to the same result. Which characters change, and how, is
/// left to std's Unicode tables and not stated.
#[verifier::external_body]
fn to_lowercase(s: &str) -> (r: String)
    ensures
        r@ == lowercase_of(s@),
{
    s.to_lowercase()
}

/// Lexicographic order of texts, character by character from `i` on.
pub open spec fn text_le_from(a: Seq<char>, b: Seq<char>, i: int) -> bool
    decreases a.len() - i,
{
    if i < 0 || i >= a.len() {
        true
    } else if i >= b.len() {
        false
    } else if a[i] != b[i] {
        a[i] < b[i]
    } else {
        text_le_from(a, b, i + 1)
    }
}

/// `a` comes no later than `b` in lexicographic (character) order, the
/// order of `String`.
pub open spec fn text_le(a: Seq<char>, b: Seq<char>) -> bool {
    text_le_from(a, b, 0)
}

proof fn lemma_text_le_reflexive(a: Seq<char>, i: int)
    requires
        0 <= i,
    ensures
        text_le_from(a, a, i),
    decreases a.len() - i,
{
    if i < a.len() {
        lemma_text_le_reflexive(a, i + 1);
    }
}

proof fn lemma_text_le_total(a: Seq<char>, b: Seq<char>, i: int)
    requires
        0 <= i,
    ensures
        text_le_from(a, b, i) || text_le_from(b, a, i),
    decreases a.len() - i,
{
    if i < a.len() && i < b.len() && a[i] == b[i] {
        lemma_text_le_total(a, b, i + 1);
    }
}

proof fn lemma_text_le_transitive(a: Seq<char>, b: Seq<char>, c: Seq<char>, i: int)
    requires
        0 <= i,
        text_le_from(a, b, i),
        text_le_from(b, c, i),
    ensures
        text_le_from(a, c, i),
    decreases a.len() - i,
{
    if i < a.len() && i < b.len() && i < c.len() && a[i] == b[i] && b[i] == c[i] {
        lemma_text_le_transitive(a, b, c, i + 1);
    }
}

proof fn lemma_text_le_antisymmetric(a: Seq<char>, b: Seq<char>, i: int)
    requires
        0 <= i,
        text_le_from(a, b, i),
        text_le_from(b, a, i),
        i <= a.len() && i <= b.len(),
        forall|j: int| 0 <= j < i ==> a[j] == b[j],
    ensures
        a == b,
    decreases a.len() - i,
{
    if i < a.len() && i < b.len() {
        lemma_text_le_antisymmetric(a, b, i + 1);
    } else {
        assert(a =~= b);
    }
}

fn text_le_exec(a: &Vec<char>, b: &Vec<char>) -> (r: bool)
    ensures
        r == text_le(a@, b@),
{
    let mut i: usize = 0;
    while i < a.len()
        invariant
            i <= a@.len(),
            text_le(a@, b@) == text_le_from(a@, b@, i as int),
        decreases a@.len() - i,
    {
        if i >= b.len() {
            return false;
        }
        if a[i] != b[i] {
            return a[i] < b[i];
        }
        i = i + 1;
    }
    true
}

/// The sort key of a font family with its flag: its name in lower case.
pub open spec fn family_key(x: (String, bool)) -> Seq<char> {
    lowercase_of(x.0@)
}

/// The families whose key is `k`.
pub open spec fn key_is(k: Seq<char>) -> spec_fn((String, bool)) -> bool {
    |x: (String, bool)| family_key(x) == k
}

/// `s` is `input` sorted by lower-case name, keeping the order of
/// families with the same key (as `sort_by_key` does).
pub open spec fn stably_sorted(s: Seq<(String, bool)>, input: Seq<(String, bool)>) -> bool {
    &&& forall|a: int, b: int| 0 <= a < b < s.len() ==> text_le(family_key(#[trigger] s[a]), family_key(#[trigger] s[b]))
    &&& forall|k: Seq<char>| #[trigger] s.filter(key_is(k)) == input.filter(key_is(k))
}

proof fn lemma_filter_none(s: Seq<(String, bool)>, k: Seq<char>)
    requires
        forall|j: int| 0 <= j < s.len() ==> family_key(#[trigger] s[j]) != k,
    ensures
        s.filter(key_is(k)) == Seq::<(String, bool)>::empty(),
    decreases s.len(),
{
    reveal(Seq::filter);
    if s.len() > 0 {
        lemma_filter_none(s.drop_last(), k);
    }
}

proof fn lemma_filter_one(x: (String, bool), k: Seq<char>)
    ensures
        seq![x].filter(key_is(k)) == (if family_key(x) == k {
            seq![x]
        } else {
            Seq::<(String, bool)>::empty()
        }),
{
    Seq::<(String, bool)>::empty().lemma_filter_push(x, key_is(k));
    assert(Seq::<(String, bool)>::empty().push(x) =~= seq![x]);
    reveal(Seq::filter);
}

/// Sorts families with their flags by lower-case name, stably.
fn sort_by_lowercase(items: Vec<(String, bool)>) -> (r: Vec<(String, bool)>)
    ensures
        stably_sorted(r@, items@),
{
    let mut r: Vec<(String, bool)> = Vec::new();
    let mut keys: Vec<Vec<char>> = Vec::new();
    let mut i: usize = 0;
    while i < items.len()
        invariant
            i <= items@.len(),
            keys@.len() == r@.len(),
            forall|j: int| 0 <= j < r@.len() ==> (#[trigger] keys@[j])@ == family_key(r@[j]),
            forall|a: int, b: int| 0 <= a < b < r@.len() ==> text_le(family_key(#[trigger] r@[a]), family_key(#[trigger] r@[b])),
            forall|k: Seq<char>| #[trigger] r@.filter(key_is(k)) == items@.take(i as int).filter(key_is(k)),
        decreases items@.len() - i,
    {
        let x = (items[i].0.clone(), items[i].1);
        let kx = chars_of(to_lowercase(x.0.as_str()).as_str());
        assert(x == items@[i as int]);
        let mut p: usize = 0;
        while p < r.len() && text_le_exec(&keys[p], &kx)
            invariant
                p <= r@.len(),
                keys@.len() == r@.len(),
                forall|j: int| 0 <= j < r@.len() ==> (#[trigger] keys@[j])@ == family_key(r@[j]),
                forall|q: int| 0 <= q < p ==> text_le(family_key(#[trigger] r@[q]), kx@),
            decreases r@.len() - p,
        {
            p = p + 1;
        }
        let ghost old_r = r@;
        proof {
            // every family from p on has a key after kx
            assert forall|q: int| p <= q < old_r.len() implies !text_le(family_key(#[trigger] old_r[q]), kx@) by {
                if p < old_r.len() {
                    assert(!text_le(family_key(old_r[p as int]), kx@));
                    if q > p {
                        if text_le(family_key(old_r[q]), kx@) {
                            assert(text_le(family_key(old_r[p as int]), family_key(old_r[q])));
                            lemma_text_le_transitive(family_key(old_r[p as int]), family_key(old_r[q]), kx@, 0);
                        }
                    }
                }
            }
        }
        r.insert(p, x);
        keys.insert(p, kx);
        proof {
            let new_r = r@;
            assert(new_r =~= old_r.take(p as int) + seq![x] + old_r.skip(p as int));
            assert(old_r =~= old_r.take(p as int) + old_r.skip(p as int));
            assert(items@.take(i + 1) =~= items@.take(i as int).push(x));
            assert forall|j: int| 0 <= j < new_r.len() implies (#[trigger] keys@[j])@ == family_key(new_r[j]) by {
                if j < p {
                    assert(new_r[j] == old_r[j]);
                } else if j > p {
                    assert(new_r[j] == old_r[j - 1]);
                }
            }
            assert forall|a: int, b: int| 0 <= a < b < new_r.len() implies text_le(
                family_key(#[trigger] new_r[a]),
                family_key(#[trigger] new_r[b]),
            ) by {
                if a < p && b < p {
                    assert(new_r[a] == old_r[a] && new_r[b] == old_r[b]);
                } else if a < p && b == p {
                    assert(new_r[a] == old_r[a]);
                } else if a < p && b > p {
                    assert(new_r[a] == old_r[a] && new_r[b] == old_r[b - 1]);
                } else if a == p {
                    assert(new_r[b] == old_r[b - 1]);
                    assert(!text_le(family_key(old_r[b - 1]), kx@));
                    lemma_text_le_total(family_key(old_r[b - 1]), kx@, 0);
                } else {
                    assert(new_r[a] == old_r[a - 1] && new_r[b] == old_r[b - 1]);
                }
            }
            assert forall|k: Seq<char>| #[trigger] new_r.filter(key_is(k)) == items@.take(i + 1).filter(key_is(k)) by {
                let f = key_is(k);
                let head = old_r.take(p as int);
                let tail = old_r.skip(p as int);
                Seq::filter_distributes_over_add(head + seq![x], tail, f);
                Seq::filter_distributes_over_add(head, seq![x], f);
                Seq::filter_distributes_over_add(head, tail, f);
                lemma_filter_one(x, k);
                items@.take(i as int).lemma_filter_push(x, f);
                assert(old_r.filter(f) == items@.take(i as int).filter(f));
                if family_key(x) == k {
                    assert forall|j: int| 0 <= j < tail.len() implies family_key(#[trigger] tail[j]) != k by {
                        assert(tail[j] == old_r[p + j]);
                        assert(!text_le(family_key(old_r[p + j]), kx@));
                        lemma_text_le_reflexive(kx@, 0);
                    }
                    lemma_filter_none(tail, k);
                    assert(new_r.filter(f) =~= old_r.filter(f).push(x));
                } else {
                    assert(new_r.filter(f) =~= old_r.filter(f));
                }
            }
        }
        i = i + 1;
    }
    proof {
        assert(items@.take(i as int) =~= items@);
    }
    r
}

/// `s` by name and flag, with each run of equal names cut to its first
/// (as `Vec::dedup` does on the names).
pub open spec fn dedup_names(s: Seq<(String, bool)>) -> Seq<(Seq<char>, bool)>
    decreases s.len(),
{
    if s.len() == 0 {
        Seq::empty()
    } else if s.len() >= 2 && s.last().0@ == s[s.len() - 2].0@ {
        dedup_names(s.drop_last())
    } else {
        dedup_names(s.drop_last()).push((s.last().0@, s.last().1))
    }
}

proof fn lemma_dedup_last(s: Seq<(String, bool)>)
    requires
        s.len() > 0,
    ensures
        dedup_names(s).len() > 0,
        dedup_names(s).last().0 == s.last().0@,
    decreases s.len(),
{
    if s.len() >= 2 && s.last().0@ == s[s.len() - 2].0@ {
        lemma_dedup_last(s.drop_last());
    }
}

fn dedup_by_name(sorted: Vec<(String, bool)>) -> (r: Vec<(String, bool)>)
    ensures
        r@.map_values(|x: (String, bool)| (x.0@, x.1)) == dedup_names(sorted@),
{
    let mut r: Vec<(String, bool)> = Vec::new();
    let mut i: usize = 0;
    while i < sorted.len()
        invariant
            i <= sorted@.len(),
            r@.map_values(|x: (String, bool)| (x.0@, x.1)) == dedup_names(sorted@.take(i as int)),
        decreases sorted@.len() - i,
    {
        let ghost before = r@.map_values(|x: (String, bool)| (x.0@, x.1));
        let ghost t = sorted@.take(i + 1);
        proof {
            assert(t.drop_last() =~= sorted@.take(i as int));
            if i > 0 {
                lemma_dedup_last(sorted@.take(i as int));
                assert(sorted@.take(i as int).last() == sorted@[i - 1]);
            }
        }
        let same = if r.len() > 0 {
            let last = r.len() - 1;
            proof {
                assert(before[last as int] == (r@[last as int].0@, r@[last as int].1));
            }
            r[last].0 == sorted[i].0
        } else {
            false
        };
        if !same {
            r.push((sorted[i].0.clone(), sorted[i].1));
            proof {
                assert(r@.map_values(|x: (String, bool)| (x.0@, x.1)) =~= before.push((sorted@[i as int].0@, sorted@[i as int].1)));
            }
        }
        i = i + 1;
    }
    proof {
        assert(sorted@.take(i as int) =~= sorted@);
    }
    r
}

/// `pref` followed by the entries of `xs` that are kept (`keep[i]`) and
/// not listed yet, in order.
pub open spec fn add_new_where(pref: Seq<Seq<char>>, xs: Seq<Seq<char>>, keep: Seq<bool>) -> Seq<Seq<char>>
    decreases xs.len(),
{
    if xs.len() == 0 {
        pref
    } else {
        let next = if keep[0] && !pref.contains(xs[0]) {
            pref.push(xs[0])
        } else {
            pref
        };
        add_new_where(next, xs.drop_first(), keep.drop_first())
    }
}

fn contains_text(v: &Vec<String>, s: &str) -> (r: bool)
    ensures
        r == v@.map_values(|x: String| x@).contains(s@),
{
    let ghost vv = v@.map_values(|x: String| x@);
    let mut i: usize = 0;
    while i < v.len()
        invariant
            i <= v@.len(),
            vv == v@.map_values(|x: String| x@),
            forall|j: int| 0 <= j < i ==> vv[j] != s@,
        decreases v@.len() - i,
    {
        if crate::theme::same_text(v[i].as_str(), s) {
            proof {
                assert(vv[i as int] == s@);
            }
            return true;
        }
        i = i + 1;
    }
    false
}

fn add_where(out: &mut Vec<String>, xs: &Vec<String>, keep: &Vec<bool>)
    requires
        keep@.len() == xs@.len(),
    ensures
        final(out)@.map_values(|x: String| x@) == add_new_where(
            old(out)@.map_values(|x: String| x@),
            xs@.map_values(|x: String| x@),
            keep@,
        ),
{
    let ghost goal = add_new_where(old(out)@.map_values(|x: String| x@), xs@.map_values(|x: String| x@), keep@);
    let mut i: usize = 0;
    while i < xs.len()
        invariant
            i <= xs@.len(),
            keep@.len() == xs@.len(),
            goal == add_new_where(
                out@.map_values(|x: String| x@),
                xs@.map_values(|x: String| x@).skip(i as int),
                keep@.skip(i as int),
            ),
        decreases xs@.len() - i,
    {
        let ghost cur = out@.map_values(|x: String| x@);
        let ghost rest = xs@.map_values(|x: String| x@).skip(i as int);
        proof {
            assert(rest[0] == xs@[i as int]@);
            assert(rest.drop_first() =~= xs@.map_values(|x: String| x@).skip(i + 1));
            assert(keep@.skip(i as int).drop_first() =~= keep@.skip(i + 1));
            assert(keep@.skip(i as int)[0] == keep@[i as int]);
        }
        if keep[i] && !contains_text(out, xs[i].as_str()) {
            out.push(xs[i].clone());
            proof {
                assert(out@.map_values(|x: String| x@) =~= cur.push(xs@[i as int]@));
            }
        }
        i = i + 1;
    }
    proof {
        assert(xs@.map_values(|x: String| x@).skip(i as int) =~= Seq::<Seq<char>>::empty());
    }
}

/// The texts of strings.
pub open spec fn texts(v: Seq<String>) -> Seq<Seq<char>> {
    v.map_values(|x: String| x@)
}

/// The flags saying which texts are not empty.
pub open spec fn nonempty_flags(xs: Seq<Seq<char>>) -> Seq<bool> {
    xs.map_values(|x: Seq<char>| x.len() > 0)
}

fn nonempty_flags_of(xs: &Vec<String>) -> (r: Vec<bool>)
    ensures
        r@ == nonempty_flags(xs@.map_values(|x: String| x@)),
{
    let mut r: Vec<bool> = Vec::new();
    let mut i: usize = 0;
    while i < xs.len()
        invariant
            i <= xs@.len(),
            r@ == nonempty_flags(xs@.map_values(|x: String| x@).take(i as int)),
        decreases xs@.len() - i,
    {
        r.push(!xs[i].as_str().is_empty());
        proof {
            assert(nonempty_flags(xs@.map_values(|x: String| x@).take(i + 1)) =~= nonempty_flags(
                xs@.map_values(|x: String| x@).take(i as int),
            ).push(xs@[i as int]@.len() > 0));
        }
        i = i + 1;
    }
    proof {
        assert(xs@.map_values(|x: String| x@).take(i as int) =~= xs@.map_values(|x: String| x@));
    }
    r
}

/// The names of deduplicated families.
pub open spec fn names_of(s: Seq<(Seq<char>, bool)>) -> Seq<Seq<char>> {
    s.map_values(|x: (Seq<char>, bool)| x.0)
}

/// Which deduplicated families are offered: those not flagged.
pub open spec fn unflagged(s: Seq<(Seq<char>, bool)>) -> Seq<bool> {
    s.map_values(|x: (Seq<char>, bool)| !x.1)
}

/// The fonts offered, in order: the preferred ones (`preferred`, skipping
/// empty names), then every installed family sorted by lower-case name
/// with repeats removed, skipping flagged ones, each name once.
pub open spec fn offered_families(
    preferred: Seq<Seq<char>>,
    installed: Seq<(String, bool)>,
    sorted: Seq<(String, bool)>,
    r: Seq<Seq<char>>,
) -> bool {
    &&& stably_sorted(sorted, installed)
    &&& r == add_new_where(
        add_new_where(Seq::empty(), preferred, nonempty_flags(preferred)),
        names_of(dedup_names(sorted)),
        unflagged(dedup_names(sorted)),
    )
}

fn offer_families(preferred: Vec<String>, installed: Vec<(String, bool)>) -> (r: Vec<String>)
    ensures
        exists|sorted: Seq<(String, bool)>| #![trigger dedup_names(sorted)] offered_families(texts(preferred@), installed@, sorted, texts(r@)),
{
    let sorted = sort_by_lowercase(installed);
    let ghost sorted_view = sorted@;
    let deduped = dedup_by_name(sorted);
    let mut names: Vec<String> = Vec::new();
    let mut keep: Vec<bool> = Vec::new();
    let mut i: usize = 0;
    let ghost dv = deduped@.map_values(|x: (String, bool)| (x.0@, x.1));
    while i < deduped.len()
        invariant
            i <= deduped@.len(),
            dv == deduped@.map_values(|x: (String, bool)| (x.0@, x.1)),
            names@.map_values(|x: String| x@) == names_of(dv).take(i as int),
            keep@ == unflagged(dv).take(i as int),
        decreases deduped@.len() - i,
    {
        names.push(deduped[i].0.clone());
        keep.push(!deduped[i].1);
        proof {
            assert(names_of(dv).take(i + 1) =~= names_of(dv).take(i as int).push(deduped@[i as int].0@));
            assert(unflagged(dv).take(i + 1) =~= unflagged(dv).take(i as int).push(!deduped@[i as int].1));
            assert(names@.map_values(|x: String| x@) =~= names_of(dv).take(i as int).push(deduped@[i as int].0@));
        }
        i = i + 1;
    }
    proof {
        assert(names_of(dv).take(i as int) =~= names_of(dv));
        assert(unflagged(dv).take(i as int) =~= unflagged(dv));
    }
    let mut r: Vec<String> = Vec::new();
    let flags = nonempty_flags_of(&preferred);
    proof {
        assert(r@.map_values(|x: String| x@) =~= Seq::<Seq<char>>::empty());
    }
    add_where(&mut r, &preferred, &flags);
    add_where(&mut r, &names, &keep);
    proof {
        assert(offered_families(texts(preferred@), installed@, sorted_view, texts(r@)));
    }
    r
}

/// The UI font choices: the system font, the configured UI font and the
/// default terminal font first, then the installed `font_families` sorted
/// by lower-case name, each name once.
pub fn prepare_ui_font_families(ui_font_family: &str, default_terminal_family: &str, font_families: Vec<String>) -> (r:
    Vec<String>)
    ensures
        exists|sorted: Seq<(String, bool)>| #![trigger dedup_names(sorted)] offered_families(
            seq![".SystemUIFont"@, ui_font_family@, default_terminal_family@],
            unflagged_families(font_families@),
            sorted,
            texts(r@),
        ),
{
    let mut preferred: Vec<String> = Vec::new();
    preferred.push(".SystemUIFont".to_owned());
    preferred.push(ui_font_family.to_owned());
    preferred.push(default_terminal_family.to_owned());
    proof {
        reveal_strlit(".SystemUIFont");
        assert(texts(preferred@) =~= seq![".SystemUIFont"@, ui_font_family@, default_terminal_family@]);
    }
    let installed = with_flags(font_families, &Vec::new());
    offer_families(preferred, installed)
}

/// The families, none flagged.
pub open spec fn unflagged_families(families: Seq<String>) -> Seq<(String, bool)> {
    families.map_values(|f: String| (f, false))
}

/// The families with their flags (`flags[i]` for `families[i]`, none when
/// `flags` is empty).
pub open spec fn flagged_families(families: Seq<String>, flags: Seq<bool>) -> Seq<(String, bool)> {
    Seq::new(families.len(), |i: int| (families[i], if flags.len() == 0 { false } else { flags[i] }))
}

fn with_flags(families: Vec<String>, flags: &Vec<bool>) -> (r: Vec<(String, bool)>)
    requires
        flags@.len() == 0 || flags@.len() == families@.len(),
    ensures
        r@ == flagged_families(families@, flags@),
        flags@.len() == 0 ==> r@ == unflagged_families(families@),
{
    let mut r: Vec<(String, bool)> = Vec::new();
    let mut i: usize = 0;
    while i < families.len()
        invariant
            i <= families@.len(),
            flags@.len() == 0 || flags@.len() == families@.len(),
            r@ == flagged_families(families@, flags@).take(i as int),
        decreases families@.len() - i,
    {
        let flag = if flags.len() == 0 { false } else { flags[i] };
        r.push((families[i].clone(), flag));
        proof {
            assert(flagged_families(families@, flags@).take(i + 1) =~= flagged_families(families@, flags@).take(
                i as int,
            ).push((families@[i as int], flag)));
        }
        i = i + 1;
    }
    proof {
        assert(flagged_families(families@, flags@).take(i as int) =~= flagged_families(families@, flags@));
        if flags@.len() == 0 {
            assert(flagged_families(families@, flags@) =~= unflagged_families(families@));
        }
    }
    r
}

/// The terminal font choices: the default terminal font, the configured
/// one (as sanitized, `sanitized_terminal_family`) and the fallback fonts
/// first, then the installed `font_families` sorted by lower-case name,
/// each name once, leaving out the platform's pseudo families
/// (`pseudo[i]` for `font_families[i]`).
pub fn prepare_terminal_font_families(
    default_terminal_family: &str,
    sanitized_terminal_family: &str,
    fallbacks: &Vec<String>,
    font_families: Vec<String>,
    pseudo: &Vec<bool>,
) -> (r: Vec<String>)
    requires
        pseudo@.len() == font_families@.len(),
    ensures
        exists|sorted: Seq<(String, bool)>| #![trigger dedup_names(sorted)] offered_families(
            seq![default_terminal_family@, sanitized_terminal_family@] + texts(fallbacks@),
            flagged_families(font_families@, pseudo@),
            sorted,
            texts(r@),
        ),
{
    let mut preferred: Vec<String> = Vec::new();
    preferred.push(default_terminal_family.to_owned());
    preferred.push(sanitized_terminal_family.to_owned());
    let mut i: usize = 0;
    while i < fallbacks.len()
        invariant
            i <= fallbacks@.len(),
            texts(preferred@) == seq![default_terminal_family@, sanitized_terminal_family@] + texts(fallbacks@).take(i as int),
        decreases fallbacks@.len() - i,
    {
        let ghost before = texts(preferred@);
        preferred.push(fallbacks[i].clone());
        proof {
            assert(texts(preferred@) =~= before.push(fallbacks@[i as int]@));
            assert(texts(fallbacks@).take(i + 1) =~= texts(fallbacks@).take(i as int).push(fallbacks@[i as int]@));
            assert(texts(preferred@) =~= seq![default_terminal_family@, sanitized_terminal_family@] + texts(fallbacks@).take(
                i + 1,
            ));
        }
        i = i + 1;
    }
    proof {
        assert(texts(fallbacks@).take(i as int) =~= texts(fallbacks@));
    }
    let installed = if font_families.len() == 0 {
        Vec::new()
    } else {
        with_flags(font_families, pseudo)
    };
    proof {
        if installed@.len() == 0 {
            assert(installed@ =~= flagged_families(font_families@, pseudo@));
        }
    }
    offer_families(preferred, installed)
}

proof fn lemma_filter_split_last(s: Seq<(String, bool)>, k: Seq<char>)
    requires
        s.len() > 0,
    ensures
        s.filter(key_is(k)) == (if family_key(s.last()) == k {
            s.drop_last().filter(key_is(k)).push(s.last())
        } else {
            s.drop_last().filter(key_is(k))
        }),
{
    assert(s =~= s.drop_last().push(s.last()));
    s.drop_last().lemma_filter_push(s.last(), key_is(k));
}

proof fn lemma_key_in_sorted(s: Seq<(String, bool)>, x: (String, bool))
    requires
        s.len() > 0,
        s.contains(x),
        forall|a: int, b: int| 0 <= a < b < s.len() ==> text_le(family_key(#[trigger] s[a]), family_key(#[trigger] s[b])),
    ensures
        text_le(family_key(x), family_key(s.last())),
{
    let j = choose|j: int| 0 <= j < s.len() && s[j] == x;
    if j < s.len() - 1 {
        assert(text_le(family_key(s[j]), family_key(s[s.len() - 1])));
    } else {
        lemma_text_le_reflexive(family_key(x), 0);
    }
}

/// There is one stable sort by lower-case name: two lists sorted by it
/// that hold the same families of each key, in the same order, are equal.
pub proof fn law_stable_sort_is_unique(s1: Seq<(String, bool)>, s2: Seq<(String, bool)>, input: Seq<(String, bool)>)
    requires
        stably_sorted(s1, input),
        stably_sorted(s2, input),
    ensures
        s1 == s2,
    decreases s1.len() + s2.len(),
{
    if s1.len() == 0 && s2.len() == 0 {
        assert(s1 =~= s2);
        return;
    }
    if s1.len() == 0 || s2.len() == 0 {
        let (full, empty) = if s1.len() == 0 { (s2, s1) } else { (s1, s2) };
        let k = family_key(full.last());
        lemma_filter_split_last(full, k);
        reveal(Seq::filter);
        assert(full.filter(key_is(k)).len() > 0);
        assert(empty.filter(key_is(k)) =~= Seq::<(String, bool)>::empty());
        assert(s1.filter(key_is(k)) == input.filter(key_is(k)));
        assert(s2.filter(key_is(k)) == input.filter(key_is(k)));
        assert(false);
        return;
    }
    let x1 = s1.last();
    let x2 = s2.last();
    let k1 = family_key(x1);
    let k2 = family_key(x2);
    // each last family shows up in the other list, so neither key is after the other
    lemma_filter_split_last(s1, k1);
    lemma_filter_split_last(s2, k2);
    assert(s1.filter(key_is(k1)).last() == x1);
    assert(s1.filter(key_is(k1)).contains(x1));
    assert(s2.filter(key_is(k1)) == s1.filter(key_is(k1)));
    s2.lemma_filter_contains_rev(key_is(k1), x1);
    lemma_key_in_sorted(s2, x1);
    assert(s2.filter(key_is(k2)).last() == x2);
    assert(s2.filter(key_is(k2)).contains(x2));
    assert(s1.filter(key_is(k2)) == s2.filter(key_is(k2)));
    s1.lemma_filter_contains_rev(key_is(k2), x2);
    lemma_key_in_sorted(s1, x2);
    lemma_text_le_antisymmetric(k1, k2, 0);
    assert(x1 == x2);
    let t1 = s1.drop_last();
    let t2 = s2.drop_last();
    assert forall|k: Seq<char>| #[trigger] t1.filter(key_is(k)) == t2.filter(key_is(k)) by {
        lemma_filter_split_last(s1, k);
        lemma_filter_split_last(s2, k);
        assert(s1.filter(key_is(k)) == s2.filter(key_is(k)));
        if family_key(x1) == k {
            assert(t1.filter(key_is(k)) =~= s1.filter(key_is(k)).drop_last());
            assert(t2.filter(key_is(k)) =~= s2.filter(key_is(k)).drop_last());
        }
    }
    assert forall|a: int, b: int| 0 <= a < b < t1.len() implies text_le(family_key(#[trigger] t1[a]), family_key(#[trigger] t1[b])) by {
        assert(t1[a] == s1[a] && t1[b] == s1[b]);
    }
    assert forall|a: int, b: int| 0 <= a < b < t2.len() implies text_le(family_key(#[trigger] t2[a]), family_key(#[trigger] t2[b])) by {
        assert(t2[a] == s2[a] && t2[b] == s2[b]);
    }
    law_stable_sort_is_unique(t1, t2, t2);
    assert(s1 =~= t1.push(x1));
    assert(s2 =~= t2.push(x2));
}

/// What `char::to_lowercase` yields for `c`.
pub uninterp spec fn char_lowercase_of(c: char) -> Seq<char>;

/// Calls `char::to_lowercase` (std) and collects the characters it yields
/// into a string. The contract claims only that they are the text named
/// `char_lowercase_of` for the argument; the mapping itself is left to
/// std's Unicode tables and not stated.
#[verifier::external_body]
fn char_to_lowercase(c: char) -> (r: String)
    ensures
        r@ == char_lowercase_of(c),
{
    c.to_lowercase().to_string()
}

/// A font name reduced for comparison: whitespace and `-` dropped, the
/// rest in lower case.
pub open spec fn font_name_key(s: Seq<char>) -> Seq<char>
    decreases s.len(),
{
    if s.len() == 0 {
        Seq::empty()
    } else {
        font_name_key(s.drop_last()) + if is_whitespace(s.last()) || s.last() == '-' {
            Seq::empty()
        } else {
            char_lowercase_of(s.last())
        }
    }
}

/// The name under which the terminal font is registered: the bundled
/// Ioskeley Mono however it is spaced, hyphenated or cased, else the name
/// trimmed.
pub open spec fn canonical_family(sanitized: Seq<char>) -> Seq<char> {
    if font_name_key(sanitized) == "ioskeleymono"@ {
        "IoskeleyMono"@
    } else {
        trim_text(sanitized)
    }
}

/// The registered name of a terminal font family, given the family as the
/// configuration sanitizes it (`sanitized`).
pub fn canonical_terminal_font_family(sanitized: &str) -> (r: String)
    ensures
        r@ == canonical_family(sanitized@),
{
    let cs = chars_of(sanitized);
    let mut key = String::new();
    let mut i: usize = 0;
    while i < cs.len()
        invariant
            cs@ == sanitized@,
            i <= cs@.len(),
            key@ == font_name_key(cs@.take(i as int)),
        decreases cs@.len() - i,
    {
        let c = cs[i];
        proof {
            assert(cs@.take(i + 1).drop_last() =~= cs@.take(i as int));
        }
        if !char_is_whitespace(c) && c != '-' {
            let lower = char_to_lowercase(c);
            key.append(lower.as_str());
        } else {
            proof {
                assert(key@ =~= key@ + Seq::<char>::empty());
            }
        }
        i = i + 1;
    }
    proof {
        assert(cs@.take(i as int) =~= cs@);
        reveal_strlit("ioskeleymono");
    }
    if crate::theme::same_text(key.as_str(), "ioskeleymono") {
        "IoskeleyMono".to_owned()
    } else {
        trim_str(sanitized).to_owned()
    }
}

} // verus!
