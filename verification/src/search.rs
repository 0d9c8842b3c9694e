use vstd::prelude::*;
use vstd::utf8::encode_utf8;
use crate::text::{trim_str, trim_text, trim_start_str, trim_start_text, chars_of};

verus! {

/// At most this many files are searched.
pub const MAX_SEARCH_FILES: usize = 800;

/// Files larger than this many bytes are skipped.
pub const MAX_FILE_BYTES: u64 = 512 * 1024;

/// At most this many matches are reported.
pub const MAX_RESULTS: usize = 200;

/// At most this many matches are reported from one file.
pub const MAX_MATCHES_PER_FILE: usize = 20;

/// `regex::Regex`, a compiled regular expression, carried as an opaque
/// value.
#[verifier::external_type_specification]
#[verifier::external_body]
pub struct ExRegex(regex::Regex);

/// Whether `regex` compiles `pattern` (with the given case mode) within its
/// default size limits.
pub uninterp spec fn regex_compiles(pattern: Seq<char>, case_insensitive: bool) -> bool;

/// The byte range (start, end) of the leftmost-first match that `regex`
/// finds for `pattern` (with the given case mode) in `haystack`, if any.
pub uninterp spec fn regex_first_match(pattern: Seq<char>, case_insensitive: bool, haystack: Seq<char>) -> Option<(usize, usize)>;

/// The pattern that `regex::escape` makes of `text`: one that matches
/// `text` literally.
pub uninterp spec fn regex_escaped(text: Seq<char>) -> Seq<char>;

/// A compiled regular expression together with the pattern text and case
/// mode it was compiled from.
pub struct CompiledPattern {
    pattern: String,
    case_insensitive: bool,
    regex: regex::Regex,
}

impl View for CompiledPattern {
    type V = (Seq<char>, bool);

    closed spec fn view(&self) -> (Seq<char>, bool) {
        (self.pattern@, self.case_insensitive)
    }
}

/// Compiles `pattern` with `regex::RegexBuilder` (case-insensitive when
/// asked): `Some` exactly when the builder accepts it.
#[verifier::external_body]
fn compile_pattern(pattern: &str, case_insensitive: bool) -> (r: Option<CompiledPattern>)
    ensures
        r is Some <==> regex_compiles(pattern@, case_insensitive),
        r matches Some(c) ==> c@ == (pattern@, case_insensitive),
{
    match regex::RegexBuilder::new(pattern).case_insensitive(case_insensitive).build() {
        Ok(regex) => Some(CompiledPattern { pattern: pattern.to_string(), case_insensitive, regex }),
        Err(_) => None,
    }
}

/// `Regex::find`: the byte range of the first match in `haystack`. The
/// crate guarantees `start <= end` and that the range slices the haystack.
#[verifier::external_body]
fn find_match(p: &CompiledPattern, haystack: &str) -> (r: Option<(usize, usize)>)
    ensures
        r == regex_first_match(p@.0, p@.1, haystack@),
        r matches Some((s, e)) ==> s <= e <= encode_utf8(haystack@).len(),
{
    match p.regex.find(haystack) {
        Some(m) => Some((m.start(), m.end())),
        None => None,
    }
}

/// Calls `regex::escape`: `text` with every meta character escaped. The
/// contract claims only that the result is the pattern named
/// `regex_escaped` for the text.
#[verifier::external_body]
fn escape_pattern(text: &str) -> (r: String)
    ensures
        r@ == regex_escaped(text@),
{
    regex::escape(text)
}

/// Search options of the sidebar.
#[derive(Clone, Copy, Debug, Default, PartialEq, Eq, Structural)]
pub struct SearchOptions {
    pub case_sensitive: bool,
    pub regex: bool,
}

/// How lines are matched: a literal needle (case-insensitive through an
/// escaped regex), or a regular expression.
pub enum SearchMatcher {
    Literal { needle: String, case_sensitive: bool, case_insensitive_regex: Option<CompiledPattern> },
    Regex(CompiledPattern),
}

pub enum MatcherView {
    Literal { needle: Seq<char>, case_sensitive: bool, case_insensitive_regex: Option<(Seq<char>, bool)> },
    Regex((Seq<char>, bool)),
}

impl View for SearchMatcher {
    type V = MatcherView;

    open spec fn view(&self) -> MatcherView {
        match self {
            SearchMatcher::Literal { needle, case_sensitive, case_insensitive_regex } => MatcherView::Literal {
                needle: needle@,
                case_sensitive: *case_sensitive,
                case_insensitive_regex: match case_insensitive_regex {
                    Some(p) => Some(p@),
                    None => None,
                },
            },
            SearchMatcher::Regex(p) => MatcherView::Regex(p@),
        }
    }
}

/// The matcher made from a query: none for a blank query or an invalid
/// regex; a literal match of the trimmed query otherwise (its
/// case-insensitive form through the escaped query, when that compiles).
pub open spec fn matcher_for(query: Seq<char>, options: SearchOptions) -> Option<MatcherView> {
    let q = trim_text(query);
    if q.len() == 0 {
        None
    } else if options.regex {
        if regex_compiles(q, !options.case_sensitive) {
            Some(MatcherView::Regex((q, !options.case_sensitive)))
        } else {
            None
        }
    } else {
        Some(
            MatcherView::Literal {
                needle: q,
                case_sensitive: options.case_sensitive,
                case_insensitive_regex: if options.case_sensitive {
                    None
                } else if regex_compiles(regex_escaped(q), true) {
                    Some((regex_escaped(q), true))
                } else {
                    None
                },
            },
        )
    }
}

/// Whether the bytes `n` occur in `h` at `i`.
pub open spec fn occurs_at(h: Seq<u8>, n: Seq<u8>, i: int) -> bool {
    0 <= i && i + n.len() <= h.len() && h.subrange(i, i + n.len()) == n
}

/// The first byte offset at or after `i` where `n` occurs in `h`.
pub open spec fn occurrence_from(h: Seq<u8>, n: Seq<u8>, i: int) -> Option<int>
    decreases h.len() + 1 - i,
{
    if i < 0 || i + n.len() > h.len() {
        None
    } else if occurs_at(h, n, i) {
        Some(i)
    } else {
        occurrence_from(h, n, i + 1)
    }
}

/// `(start, length)` in bytes of the first match of `m` in `line`.
pub open spec fn matcher_find(m: MatcherView, line: Seq<char>) -> Option<(usize, usize)> {
    let regex_hit = |p: (Seq<char>, bool)| match regex_first_match(p.0, p.1, line) {
        Some((s, e)) => Some((s, (e - s) as usize)),
        None => None,
    };
    match m {
        MatcherView::Literal { needle, case_sensitive, case_insensitive_regex } => if case_sensitive {
            match occurrence_from(encode_utf8(line), encode_utf8(needle), 0) {
                Some(s) => Some((s as usize, encode_utf8(needle).len() as usize)),
                None => None,
            }
        } else {
            match case_insensitive_regex {
                Some(p) => regex_hit(p),
                None => None,
            }
        },
        MatcherView::Regex(p) => regex_hit(p),
    }
}

/// `str::find` for a string pattern: the first byte offset where `needle`
/// occurs in `hay`.
pub fn find_str(hay: &str, needle: &str) -> (r: Option<usize>)
    ensures
        match r {
            Some(i) => occurrence_from(encode_utf8(hay@), encode_utf8(needle@), 0) == Some(i as int),
            None => occurrence_from(encode_utf8(hay@), encode_utf8(needle@), 0) is None,
        },
{
    let h = hay.as_bytes();
    let n = needle.as_bytes();
    let ghost hs = h@;
    let ghost ns = n@;
    let hlen = h.len();
    if n.len() > hlen {
        return None;
    }
    let last = hlen - n.len();
    let mut i: usize = 0;
    while i <= last
        invariant
            hlen == h@.len(),
            hs == encode_utf8(hay@),
            ns == encode_utf8(needle@),
            hs == h@,
            ns == n@,
            n@.len() <= h@.len(),
            last == h@.len() - n@.len(),
            occurrence_from(hs, ns, 0) == occurrence_from(hs, ns, i as int),
        decreases last + 1 - i,
    {
        let mut j: usize = 0;
        let mut same = true;
        while j < n.len()
            invariant
                hlen == h@.len(),
                hs == h@,
                ns == n@,
                i <= last,
                last == h@.len() - n@.len(),
                j <= n@.len(),
                same == (forall|k: int| 0 <= k < j ==> h@[i + k] == n@[k]),
            decreases n@.len() - j,
        {
            if h[i + j] != n[j] {
                same = false;
            }
            j = j + 1;
        }
        proof {
            if same {
                assert(h@.subrange(i as int, i + n@.len()) =~= n@);
            } else {
                let k = choose|k: int| 0 <= k < n@.len() && !(h@[i + k] == n@[k]);
                assert(h@.subrange(i as int, i + n@.len())[k] != n@[k]);
            }
        }
        if same {
            return Some(i);
        }
        if i == last {
            proof {
                assert(occurrence_from(hs, ns, i + 1) is None);
            }
            return None;
        }
        i = i + 1;
    }
    None
}

impl SearchMatcher {
    /// The matcher for `query`; `None` when the trimmed query is empty or,
    /// in regex mode, does not compile.
    pub fn new(query: &str, options: SearchOptions) -> (r: Option<Self>)
        ensures
            match r {
                Some(m) => matcher_for(query@, options) == Some(m@),
                None => matcher_for(query@, options) is None,
            },
            options.regex && trim_text(query@).len() > 0 ==> (r is Some <==> regex_compiles(
                trim_text(query@),
                !options.case_sensitive,
            )),
            options.regex && r is Some ==> r->0@ == MatcherView::Regex((trim_text(query@), !options.case_sensitive)),
            !options.regex && r is Some ==> (r->0@ matches MatcherView::Literal { needle, case_sensitive, .. }
                && needle == trim_text(query@) && case_sensitive == options.case_sensitive),
    {
        let query = trim_str(query);
        if query.is_empty() {
            return None;
        }
        if options.regex {
            match compile_pattern(query, !options.case_sensitive) {
                Some(p) => Some(SearchMatcher::Regex(p)),
                None => None,
            }
        } else {
            let case_insensitive_regex = if options.case_sensitive {
                None
            } else {
                let escaped = escape_pattern(query);
                compile_pattern(escaped.as_str(), true)
            };
            Some(
                SearchMatcher::Literal {
                    needle: query.to_owned(),
                    case_sensitive: options.case_sensitive,
                    case_insensitive_regex,
                },
            )
        }
    }

    /// `(start, length)` in bytes of the first match in `line`.
    pub fn find(&self, line: &str) -> (r: Option<(usize, usize)>)
        ensures
            r == matcher_find(self@, line@),
    {
        match self {
            SearchMatcher::Literal { needle, case_sensitive, case_insensitive_regex } => {
                if *case_sensitive {
                    match find_str(line, needle.as_str()) {
                        Some(start) => Some((start, needle.as_str().len())),
                        None => None,
                    }
                } else {
                    match case_insensitive_regex {
                        Some(p) => match find_match(p, line) {
                            Some((s, e)) => Some((s, e - s)),
                            None => None,
                        },
                        None => None,
                    }
                }
            },
            SearchMatcher::Regex(p) => match find_match(p, line) {
                Some((s, e)) => Some((s, e - s)),
                None => None,
            },
        }
    }
}


/// UTF-8 length of the characters `a` followed by `b`.
pub proof fn lemma_encode_concat(a: Seq<char>, b: Seq<char>)
    ensures
        encode_utf8(a + b) == encode_utf8(a) + encode_utf8(b),
    decreases a.len(),
{
    if a.len() == 0 {
        assert(a + b =~= b);
        assert(encode_utf8(a) =~= Seq::<u8>::empty());
        assert(Seq::<u8>::empty() + encode_utf8(b) =~= encode_utf8(b));
    } else {
        assert((a + b).drop_first() =~= a.drop_first() + b);
        lemma_encode_concat(a.drop_first(), b);
        assert((a + b)[0] == a[0]);
        assert(encode_utf8(a + b) =~= encode_utf8(a) + encode_utf8(b));
    }
}

/// Index of the first `'\n'` at or after `i`, or the length.
pub open spec fn next_newline(s: Seq<char>, i: int) -> int
    decreases s.len() - i,
{
    if i < 0 || i >= s.len() {
        s.len() as int
    } else if s[i] == '\n' {
        i
    } else {
        next_newline(s, i + 1)
    }
}

pub proof fn lemma_next_newline_bounds(s: Seq<char>, i: int)
    requires
        0 <= i <= s.len(),
    ensures
        i <= next_newline(s, i) <= s.len(),
        next_newline(s, i) < s.len() ==> s[next_newline(s, i)] == '\n',
    decreases s.len() - i,
{
    if i < s.len() && s[i] != '\n' {
        lemma_next_newline_bounds(s, i + 1);
    }
}

/// `str::lines` from index `i` on: split at `'\n'`, a `'\r'` before it
/// dropped, and no empty line after a final newline.
pub open spec fn lines_from(s: Seq<char>, i: int) -> Seq<Seq<char>>
    decreases s.len() + 1 - i,
{
    if i < 0 || i >= s.len() {
        Seq::empty()
    } else {
        let nl = next_newline(s, i);
        proof {
            lemma_next_newline_bounds(s, i);
        }
        let end = if nl < s.len() && nl > i && s[nl - 1] == '\r' {
            nl - 1
        } else {
            nl
        };
        seq![s.subrange(i, end)] + lines_from(s, nl + 1)
    }
}

/// A line of a file that matched.
#[derive(Debug, PartialEq, Eq)]
pub struct LineMatch {
    /// One-based line number.
    pub line_number: usize,
    pub line: String,
    /// Byte offset of the match in the line.
    pub match_start: usize,
    /// Byte length of the match.
    pub match_len: usize,
}

pub struct LineMatchView {
    pub line_number: usize,
    pub line: Seq<char>,
    pub match_start: usize,
    pub match_len: usize,
}

impl View for LineMatch {
    type V = LineMatchView;

    open spec fn view(&self) -> LineMatchView {
        LineMatchView {
            line_number: self.line_number,
            line: self.line@,
            match_start: self.match_start,
            match_len: self.match_len,
        }
    }
}

/// The matches reported from `lines[k..]` when `found` matches of this file
/// and `before` matches in all are already reported: one per matching line,
/// stopping at the per-file and overall limits.
pub open spec fn line_matches_from(
    m: MatcherView,
    lines: Seq<Seq<char>>,
    k: int,
    found: int,
    before: int,
) -> Seq<LineMatchView>
    decreases lines.len() - k,
{
    if k < 0 || k >= lines.len() || found >= MAX_MATCHES_PER_FILE || before + found >= MAX_RESULTS {
        Seq::empty()
    } else {
        match matcher_find(m, lines[k]) {
            Some((s, l)) => seq![
                LineMatchView { line_number: (k + 1) as usize, line: lines[k], match_start: s, match_len: l },
            ] + line_matches_from(m, lines, k + 1, found + 1, before),
            None => line_matches_from(m, lines, k + 1, found, before),
        }
    }
}

/// Splits text into lines as `str::lines` does.
pub fn split_lines(content: &str) -> (r: Vec<String>)
    ensures
        r@.map_values(|l: String| l@) == lines_from(content@, 0),
{
    let cs = chars_of(content);
    let n = cs.len();
    let mut out: Vec<String> = Vec::new();
    let mut i: usize = 0;
    while i < n
        invariant
            cs@ == content@,
            n == content@.len(),
            i <= n,
            lines_from(content@, 0) == out@.map_values(|l: String| l@) + lines_from(content@, i as int),
        decreases n - i,
    {
        let mut nl: usize = i;
        while nl < n && cs[nl] != '\n'
            invariant
                cs@ == content@,
                n == content@.len(),
                i <= nl <= n,
                next_newline(content@, i as int) == next_newline(content@, nl as int),
            decreases n - nl,
        {
            nl = nl + 1;
        }
        let end = if nl < n && nl > i && cs[nl - 1] == '\r' {
            nl - 1
        } else {
            nl
        };
        let line = content.substring_char(i, end).to_owned();
        let ghost before = out@.map_values(|l: String| l@);
        out.push(line);
        proof {
            assert(out@.map_values(|l: String| l@) =~= before.push(content@.subrange(i as int, end as int)));
            assert(lines_from(content@, i as int) == seq![content@.subrange(i as int, end as int)] + lines_from(content@, nl + 1));
            assert(before + lines_from(content@, i as int) =~= out@.map_values(|l: String| l@) + lines_from(content@, nl + 1));
        }
        if nl >= n {
            i = n;
        } else {
            i = nl + 1;
        }
    }
    proof {
        assert(out@.map_values(|l: String| l@) + Seq::<Seq<char>>::empty() =~= out@.map_values(|l: String| l@));
    }
    out
}

/// The matches in the text of one file, when `before` matches are already
/// reported (the line-by-line part of searching a file).
pub fn collect_line_matches(content: &str, matcher: &SearchMatcher, before: usize) -> (r: Vec<LineMatch>)
    requires
        before <= MAX_RESULTS,
    ensures
        r@.map_values(|x: LineMatch| x@) == line_matches_from(matcher@, lines_from(content@, 0), 0, 0, before as int),
{
    let lines = split_lines(content);
    let ghost lv = lines@.map_values(|l: String| l@);
    let mut out: Vec<LineMatch> = Vec::new();
    let mut found: usize = 0;
    let mut k: usize = 0;
    while k < lines.len()
        invariant
            lv == lines@.map_values(|l: String| l@),
            lv == lines_from(content@, 0),
            k <= lines@.len(),
            found <= MAX_MATCHES_PER_FILE,
            before <= MAX_RESULTS,
            line_matches_from(matcher@, lv, 0, 0, before as int) == out@.map_values(|x: LineMatch| x@)
                + line_matches_from(matcher@, lv, k as int, found as int, before as int),
        ensures
            lv == lines_from(content@, 0),
            line_matches_from(matcher@, lv, 0, 0, before as int) == out@.map_values(|x: LineMatch| x@)
                + line_matches_from(matcher@, lv, k as int, found as int, before as int),
            line_matches_from(matcher@, lv, k as int, found as int, before as int) == Seq::<LineMatchView>::empty(),
        decreases lines@.len() - k,
    {
        if found >= MAX_MATCHES_PER_FILE || before + found >= MAX_RESULTS {
            break;
        }
        proof {
            assert(lv[k as int] == lines@[k as int]@);
        }
        match matcher.find(lines[k].as_str()) {
            Some((s, l)) => {
                let ghost old_out = out@.map_values(|x: LineMatch| x@);
                out.push(LineMatch { line_number: k + 1, line: lines[k].clone(), match_start: s, match_len: l });
                found = found + 1;
                proof {
                    assert(out@.map_values(|x: LineMatch| x@) =~= old_out.push(
                        LineMatchView { line_number: (k + 1) as usize, line: lv[k as int], match_start: s, match_len: l },
                    ));
                    assert(old_out + line_matches_from(matcher@, lv, k as int, (found - 1) as int, before as int)
                        =~= out@.map_values(|x: LineMatch| x@) + line_matches_from(matcher@, lv, k + 1, found as int, before as int));
                }
            },
            None => {},
        }
        k = k + 1;
    }
    proof {
        assert(out@.map_values(|x: LineMatch| x@) + Seq::<LineMatchView>::empty() =~= out@.map_values(|x: LineMatch| x@));
    }
    out
}

/// Whether the search may still look at another entry: fewer than
/// `MAX_RESULTS` matches and `MAX_SEARCH_FILES` files so far.
pub fn search_budget_left(results: usize, files_seen: usize) -> (r: bool)
    ensures
        r == (results < MAX_RESULTS && files_seen < MAX_SEARCH_FILES),
{
    results < MAX_RESULTS && files_seen < MAX_SEARCH_FILES
}

/// Whether a directory entry is left out of the search: hidden entries and
/// build or dependency folders.
pub fn is_skipped_entry_name(name: &str) -> (r: bool)
    ensures
        r == ((name@.len() > 0 && name@[0] == '.') || name@ == "target"@ || name@ == "node_modules"@
            || name@ == "dist"@),
{
    let cs = chars_of(name);
    (cs.len() > 0 && cs[0] == '.') || crate::theme::same_text(name, "target") || crate::theme::same_text(
        name,
        "node_modules",
    ) || crate::theme::same_text(name, "dist")
}

/// Whether a file of this many bytes is searched.
pub fn is_searchable_size(len: u64) -> (r: bool)
    ensures
        r == (len <= MAX_FILE_BYTES),
{
    len <= MAX_FILE_BYTES
}

pub open spec fn sat_add(a: int, b: int) -> int {
    if a + b > usize::MAX { usize::MAX as int } else { a + b }
}

pub open spec fn sat_sub(a: int, b: int) -> int {
    if a < b { 0 } else { a - b }
}

pub open spec fn min_int(a: int, b: int) -> int {
    if a <= b { a } else { b }
}

/// A result line as previewed: indentation trimmed, and the match range
/// moved and clipped to the trimmed text (byte offsets).
pub open spec fn preview_of(line: Seq<char>, match_start: usize, match_len: usize) -> (Seq<char>, usize, usize) {
    let preview = trim_start_text(line);
    let plen = encode_utf8(preview).len() as int;
    let offset = encode_utf8(line).len() - plen;
    let vs = min_int(sat_sub(match_start as int, offset), plen);
    let ve = min_int(sat_sub(sat_add(match_start as int, match_len as int), offset), plen);
    (preview, vs as usize, sat_sub(ve, vs) as usize)
}

/// The preview text of a result line and where its match lies in it.
pub fn result_preview_match(line: &str, match_start: usize, match_len: usize) -> (r: (String, usize, usize))
    ensures
        (r.0@, r.1, r.2) == preview_of(line@, match_start, match_len),
{
    let preview = trim_start_str(line);
    proof {
        crate::text::lemma_trim_start_split(line@);
        lemma_encode_concat(line@.subrange(0, line@.len() - preview@.len()), preview@);
    }
    let line_len = line.as_bytes().len();
    let preview_len = preview.as_bytes().len();
    let trim_offset = line_len - preview_len;
    let match_end = match_start.saturating_add(match_len);
    let a = match_start.saturating_sub(trim_offset);
    let visible_start = if a < preview_len { a } else { preview_len };
    let b = match_end.saturating_sub(trim_offset);
    let visible_end = if b < preview_len { b } else { preview_len };
    (preview.to_owned(), visible_start, visible_end.saturating_sub(visible_start))
}

/// A stretch of preview text, highlighted or not.
#[derive(Clone, Copy, Debug, PartialEq, Eq, Structural)]
pub struct TextRun {
    pub len: usize,
    pub highlighted: bool,
}

/// The runs that style a preview of `preview_len` bytes with the match
/// (clipped to the text) highlighted.
pub open spec fn highlight_runs_of(preview_len: usize, match_start: usize, match_len: usize) -> Seq<TextRun> {
    let ms = min_int(match_start as int, preview_len as int);
    let ml = min_int(match_len as int, preview_len - ms);
    let me = ms + ml;
    let runs = (if ms > 0 { seq![TextRun { len: ms as usize, highlighted: false }] } else { Seq::empty() })
        + (if ml > 0 { seq![TextRun { len: ml as usize, highlighted: true }] } else { Seq::empty() })
        + (if me < preview_len { seq![TextRun { len: (preview_len - me) as usize, highlighted: false }] } else { Seq::empty() });
    if runs.len() == 0 {
        seq![TextRun { len: preview_len, highlighted: false }]
    } else {
        runs
    }
}

/// The highlighting runs of a result preview.
pub fn highlight_runs(preview_len: usize, match_start: usize, match_len: usize) -> (r: Vec<TextRun>)
    ensures
        r@ == highlight_runs_of(preview_len, match_start, match_len),
{
    let ms = if match_start < preview_len { match_start } else { preview_len };
    let room = preview_len - ms;
    let ml = if match_len < room { match_len } else { room };
    let me = ms + ml;
    let mut runs: Vec<TextRun> = Vec::new();
    if ms > 0 {
        runs.push(TextRun { len: ms, highlighted: false });
    }
    let ghost a = runs@;
    if ml > 0 {
        runs.push(TextRun { len: ml, highlighted: true });
    }
    let ghost b = runs@;
    if me < preview_len {
        runs.push(TextRun { len: preview_len - me, highlighted: false });
    }
    proof {
        assert(runs@ =~= (if ms > 0 { seq![TextRun { len: ms as usize, highlighted: false }] } else { Seq::empty() })
            + (if ml > 0 { seq![TextRun { len: ml as usize, highlighted: true }] } else { Seq::empty() })
            + (if me < preview_len { seq![TextRun { len: (preview_len - me) as usize, highlighted: false }] } else { Seq::empty() }));
    }
    if runs.len() == 0 {
        runs.push(TextRun { len: preview_len, highlighted: false });
        proof {
            assert(runs@ =~= seq![TextRun { len: preview_len, highlighted: false }]);
        }
    }
    runs
}


/// How many of `paths` are `p`.
pub open spec fn count_of(paths: Seq<String>, p: Seq<char>) -> nat
    decreases paths.len(),
{
    if paths.len() == 0 {
        0
    } else {
        count_of(paths.drop_last(), p) + if paths.last()@ == p { 1nat } else { 0nat }
    }
}

/// How many results each file has: every file of `paths` once, with its
/// number of results (the order of the entries is not promised).
pub fn file_match_counts(paths: &Vec<String>) -> (r: Vec<(String, usize)>)
    ensures
        forall|i: int, j: int| 0 <= i < j < r@.len() ==> r@[i].0@ != r@[j].0@,
        forall|i: int| 0 <= i < r@.len() ==> #[trigger] r@[i].1 == count_of(paths@, r@[i].0@),
        forall|i: int| 0 <= i < r@.len() ==> r@[i].1 > 0,
        forall|q: Seq<char>| count_of(paths@, q) > 0 ==> exists|i: int| 0 <= i < r@.len() && #[trigger] r@[i].0@ == q,
{
    let mut counts: Vec<(String, usize)> = Vec::new();
    let mut k: usize = 0;
    while k < paths.len()
        invariant
            k <= paths@.len(),
            counts@.len() <= k,
            forall|i: int, j: int| 0 <= i < j < counts@.len() ==> counts@[i].0@ != counts@[j].0@,
            forall|i: int| 0 <= i < counts@.len() ==> #[trigger] counts@[i].1 == count_of(paths@.take(k as int), counts@[i].0@),
            forall|i: int| 0 <= i < counts@.len() ==> counts@[i].1 > 0,
            forall|q: Seq<char>| count_of(paths@.take(k as int), q) > 0 ==> exists|i: int| 0 <= i < counts@.len() && #[trigger] counts@[i].0@ == q,
        decreases paths@.len() - k,
    {
        let p = &paths[k];
        let ghost before = paths@.take(k as int);
        let ghost after = paths@.take(k + 1);
        proof {
            assert(after.drop_last() =~= before);
            assert(after.last() == *p);
        }
        let mut i: usize = 0;
        let mut found: Option<usize> = None;
        while i < counts.len() && found.is_none()
            invariant
                i <= counts@.len(),
                found matches Some(at) ==> at < counts@.len() && counts@[at as int].0@ == p@,
                found is None ==> forall|x: int| 0 <= x < i ==> counts@[x].0@ != p@,
            decreases counts@.len() - i,
        {
            if counts[i].0 == *p {
                found = Some(i);
            }
            i = i + 1;
        }
        let ghost old_counts = counts@;
        match found {
            Some(at) => {
                proof {
                    assert(count_of(after, p@) == count_of(before, p@) + 1);
                }
                let n = counts[at].1;
                proof {
                    assert(n == count_of(before, p@));
                    assert(n < k + 1) by {
                        lemma_count_bound(before, p@);
                    }
                }
                let name = counts[at].0.clone();
                counts.set(at, (name, n + 1));
            },
            None => {
                proof {
                    if count_of(before, p@) > 0 {
                        let w = choose|x: int| 0 <= x < counts@.len() && #[trigger] counts@[x].0@ == p@;
                    }
                    assert(count_of(after, p@) == 1);
                }
                counts.push((p.clone(), 1));
            },
        }
        proof {
            assert forall|x: int| 0 <= x < counts@.len() implies #[trigger] counts@[x].1 == count_of(after, counts@[x].0@) by {
                if x < old_counts.len() && counts@[x].0@ != p@ {
                    assert(counts@[x] == old_counts[x]);
                }
            }
            assert forall|q: Seq<char>| count_of(after, q) > 0 implies exists|x: int| 0 <= x < counts@.len() && #[trigger] counts@[x].0@ == q by {
                if q == p@ {
                    match found {
                        Some(at) => { assert(counts@[at as int].0@ == p@); },
                        None => { assert(counts@[counts@.len() - 1].0@ == p@); },
                    }
                } else {
                    assert(count_of(before, q) > 0);
                    let x = choose|x: int| 0 <= x < old_counts.len() && #[trigger] old_counts[x].0@ == q;
                    assert(counts@[x].0@ == old_counts[x].0@);
                }
            }
        }
        k = k + 1;
    }
    proof {
        assert(paths@.take(k as int) =~= paths@);
    }
    counts
}

proof fn lemma_count_bound(paths: Seq<String>, p: Seq<char>)
    ensures
        count_of(paths, p) <= paths.len(),
    decreases paths.len(),
{
    if paths.len() > 0 {
        lemma_count_bound(paths.drop_last(), p);
    }
}

} // verus!
