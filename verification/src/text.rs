use vstd::prelude::*;
use vstd::string::StrSliceExecFns;
use crate::pane_node::{PaneId, TerminalId};
use crate::pane_tree::PaneTree;

verus! {

/// The Unicode `White_Space` property: what `char::is_whitespace` accepts.
pub open spec fn is_whitespace(c: char) -> bool {
    let x = c as u32;
    ||| 0x09 <= x <= 0x0D
    ||| x == 0x20
    ||| x == 0x85
    ||| x == 0xA0
    ||| x == 0x1680
    ||| 0x2000 <= x <= 0x200A
    ||| x == 0x2028
    ||| x == 0x2029
    ||| x == 0x202F
    ||| x == 0x205F
    ||| x == 0x3000
}

/// Whether a line is empty once surrounding whitespace is trimmed.
pub open spec fn is_blank(s: Seq<char>) -> bool {
    forall|i: int| 0 <= i < s.len() ==> is_whitespace(#[trigger] s[i])
}

/// Whether `c` is Unicode whitespace.
pub fn char_is_whitespace(c: char) -> (r: bool)
    ensures
        r == is_whitespace(c),
{
    let x = c as u32;
    (0x09 <= x && x <= 0x0D) || x == 0x20 || x == 0x85 || x == 0xA0 || x == 0x1680 || (0x2000
        <= x && x <= 0x200A) || x == 0x2028 || x == 0x2029 || x == 0x202F || x == 0x205F || x
        == 0x3000
}

/// Whether `s.trim()` would be empty.
pub fn is_blank_str(s: &str) -> (r: bool)
    ensures
        r == is_blank(s@),
{
    let mut blank = true;
    for c in it: s.chars()
        invariant
            it.seq() == s@,
            blank == (forall|i: int| 0 <= i < it.index() ==> is_whitespace(#[trigger] s@[i])),
    {
        if !char_is_whitespace(c) {
            blank = false;
        }
    }
    blank
}


/// The character of a decimal digit.
pub open spec fn digit_char(d: int) -> char {
    if d == 0 {
        '0'
    } else if d == 1 {
        '1'
    } else if d == 2 {
        '2'
    } else if d == 3 {
        '3'
    } else if d == 4 {
        '4'
    } else if d == 5 {
        '5'
    } else if d == 6 {
        '6'
    } else if d == 7 {
        '7'
    } else if d == 8 {
        '8'
    } else {
        '9'
    }
}

/// `n` written in decimal, as `format!("{}", n)` writes it.
pub open spec fn decimal(n: nat) -> Seq<char>
    decreases n,
{
    if n < 10 {
        seq![digit_char(n as int)]
    } else {
        decimal(n / 10).push(digit_char((n % 10) as int))
    }
}

fn digit_str(d: usize) -> (r: &'static str)
    requires
        d < 10,
    ensures
        r@ == seq![digit_char(d as int)],
{
    if d == 0 {
        proof { reveal_strlit("0"); }
        "0"
    } else if d == 1 {
        proof { reveal_strlit("1"); }
        "1"
    } else if d == 2 {
        proof { reveal_strlit("2"); }
        "2"
    } else if d == 3 {
        proof { reveal_strlit("3"); }
        "3"
    } else if d == 4 {
        proof { reveal_strlit("4"); }
        "4"
    } else if d == 5 {
        proof { reveal_strlit("5"); }
        "5"
    } else if d == 6 {
        proof { reveal_strlit("6"); }
        "6"
    } else if d == 7 {
        proof { reveal_strlit("7"); }
        "7"
    } else if d == 8 {
        proof { reveal_strlit("8"); }
        "8"
    } else {
        proof { reveal_strlit("9"); }
        "9"
    }
}

/// Appends `n` in decimal.
pub fn push_decimal(s: &mut String, n: usize)
    ensures
        final(s)@ == old(s)@ + decimal(n as nat),
    decreases n,
{
    if n >= 10 {
        push_decimal(s, n / 10);
    }
    s.append(digit_str(n % 10));
    proof {
        if n >= 10 {
            assert(decimal(n as nat) == decimal((n / 10) as nat).push(digit_char((n % 10) as int)));
            assert(old(s)@ + decimal((n / 10) as nat) + seq![digit_char((n % 10) as int)] =~= old(s)@
                + decimal(n as nat));
        } else {
            assert(old(s)@ + seq![digit_char(n as int)] =~= old(s)@ + decimal(n as nat));
        }
    }
}

/// Appends `n` in decimal.
pub fn push_decimal_u64(s: &mut String, n: u64)
    ensures
        final(s)@ == old(s)@ + decimal(n as nat),
    decreases n,
{
    if n >= 10 {
        push_decimal_u64(s, n / 10);
    }
    s.append(digit_str((n % 10) as usize));
    proof {
        if n >= 10 {
            assert(decimal(n as nat) == decimal((n / 10) as nat).push(digit_char((n % 10) as int)));
            assert(old(s)@ + decimal((n / 10) as nat) + seq![digit_char((n % 10) as int)] =~= old(s)@
                + decimal(n as nat));
        } else {
            assert(old(s)@ + seq![digit_char(n as int)] =~= old(s)@ + decimal(n as nat));
        }
    }
}

/// A new string holding `prefix` followed by `n` in decimal.
pub fn prefixed_decimal(prefix: &str, n: usize) -> (r: String)
    ensures
        r@ == prefix@ + decimal(n as nat),
{
    let mut s = String::new();
    s.append(prefix);
    proof {
        assert(Seq::<char>::empty() + prefix@ =~= prefix@);
    }
    push_decimal(&mut s, n);
    s
}


/// A path separator of either platform.
pub open spec fn is_path_separator(c: char) -> bool {
    c == '/' || c == '\\'
}

/// Length of `s` once trailing separators are dropped.
pub open spec fn trimmed_separator_end(s: Seq<char>, j: int) -> int
    decreases j,
{
    if j <= 0 || j > s.len() {
        0
    } else if is_path_separator(s[j - 1]) {
        trimmed_separator_end(s, j - 1)
    } else {
        j
    }
}

/// Start of the last path component of `s[..j]`: just past its last
/// separator, or 0.
pub open spec fn last_component_start(s: Seq<char>, j: int) -> int
    decreases j,
{
    if j <= 0 || j > s.len() {
        0
    } else if is_path_separator(s[j - 1]) {
        j
    } else {
        last_component_start(s, j - 1)
    }
}

/// A title shortened to its last path component (either separator, any
/// trailing separators ignored), or the whole title when that is empty.
pub open spec fn short_title(s: Seq<char>) -> Seq<char> {
    let e = trimmed_separator_end(s, s.len() as int);
    let b = last_component_start(s, e);
    if b < e {
        s.subrange(b, e)
    } else {
        s
    }
}

proof fn lemma_trimmed_separator_end_bounds(s: Seq<char>, j: int)
    requires
        0 <= j <= s.len(),
    ensures
        0 <= trimmed_separator_end(s, j) <= j,
    decreases j,
{
    if j > 0 && is_path_separator(s[j - 1]) {
        lemma_trimmed_separator_end_bounds(s, j - 1);
    }
}

proof fn lemma_last_component_start_bounds(s: Seq<char>, j: int)
    requires
        0 <= j <= s.len(),
    ensures
        0 <= last_component_start(s, j) <= j,
    decreases j,
{
    if j > 0 && !is_path_separator(s[j - 1]) {
        lemma_last_component_start_bounds(s, j - 1);
    }
}

pub fn chars_of(s: &str) -> (r: Vec<char>)
    ensures
        r@ == s@,
{
    let mut out: Vec<char> = Vec::new();
    for c in it: s.chars()
        invariant
            it.seq() == s@,
            out@ == s@.subrange(0, it.index() as int),
    {
        out.push(c);
        proof {
            assert(out@ =~= s@.subrange(0, it.index() as int + 1));
        }
    }
    proof {
        assert(out@ =~= s@);
    }
    out
}

/// The last path component of a terminal title, so that narrow panes show
/// something useful; titles that are not paths come back whole.
pub fn short_pane_title(title: &str) -> (r: &str)
    ensures
        r@ == short_title(title@),
{
    let cs = chars_of(title);
    let mut e: usize = cs.len();
    while e > 0 && (cs[e - 1] == '/' || cs[e - 1] == '\\')
        invariant
            e <= cs@.len(),
            cs@ == title@,
            trimmed_separator_end(title@, title@.len() as int) == trimmed_separator_end(title@, e as int),
        decreases e,
    {
        e = e - 1;
    }
    let mut b: usize = e;
    while b > 0 && !(cs[b - 1] == '/' || cs[b - 1] == '\\')
        invariant
            b <= e <= cs@.len(),
            cs@ == title@,
            last_component_start(title@, e as int) == last_component_start(title@, b as int),
        decreases b,
    {
        b = b - 1;
    }
    if b < e {
        title.substring_char(b, e)
    } else {
        title
    }
}

/// A terminal's title for a pane header: its own title (else "Terminal"),
/// shortened to the last path component.
pub open spec fn pane_title_text(title: Option<Seq<char>>) -> Seq<char> {
    match title {
        Some(t) => short_title(t),
        None => short_title("Terminal"@),
    }
}

/// The header text of a terminal with title `title`.
pub fn terminal_title_or_default(title: &Option<String>) -> (r: String)
    ensures
        r@ == pane_title_text(match title {
            Some(t) => Some(t@),
            None => None,
        }),
{
    match title {
        Some(t) => short_pane_title(t.as_str()).to_owned(),
        None => short_pane_title("Terminal").to_owned(),
    }
}


/// The title reported for terminal `t`: the first entry for it at or
/// after `k`, else none.
pub open spec fn reported_title(titles: Seq<(TerminalId, Option<String>)>, t: TerminalId, k: int) -> Option<Seq<char>>
    decreases titles.len() - k,
{
    if k < 0 || k >= titles.len() {
        None
    } else if titles[k].0 == t {
        match titles[k].1 {
            Some(s) => Some(s@),
            None => None,
        }
    } else {
        reported_title(titles, t, k + 1)
    }
}

impl PaneTree {
    /// The header text of pane `pane_id`, from the titles its terminals
    /// report (`titles`); `None` when the pane shows no terminal.
    pub fn pane_title(&self, pane_id: PaneId, titles: &Vec<(TerminalId, Option<String>)>) -> (r: Option<String>)
        ensures
            r is Some <==> self.root_view().terminal_of(pane_id) is Some,
            r matches Some(s) ==> s@ == pane_title_text(reported_title(titles@, self.root_view().terminal_of(pane_id)->0, 0)),
    {
        let t = match self.root().find_terminal(pane_id) {
            Some(t) => t,
            None => return None,
        };
        let mut i: usize = 0;
        while i < titles.len()
            invariant
                i <= titles@.len(),
                self.root_view().terminal_of(pane_id) == Some(t),
                reported_title(titles@, t, 0) == reported_title(titles@, t, i as int),
            decreases titles@.len() - i,
        {
            if titles[i].0 == t {
                return Some(terminal_title_or_default(&titles[i].1));
            }
            i = i + 1;
        }
        Some(terminal_title_or_default(&None))
    }
}


/// Index of the first non-whitespace character at or after `i`, or the length.
pub open spec fn skip_whitespace_from(s: Seq<char>, i: int) -> int
    decreases s.len() - i,
{
    if i < 0 || i >= s.len() {
        s.len() as int
    } else if !is_whitespace(s[i]) {
        i
    } else {
        skip_whitespace_from(s, i + 1)
    }
}

/// End of `s[..j]` once trailing whitespace is dropped.
pub open spec fn trim_whitespace_end(s: Seq<char>, j: int) -> int
    decreases j,
{
    if j <= 0 || j > s.len() {
        0
    } else if !is_whitespace(s[j - 1]) {
        j
    } else {
        trim_whitespace_end(s, j - 1)
    }
}

/// `str::trim_start`: leading whitespace dropped.
pub open spec fn trim_start_text(s: Seq<char>) -> Seq<char> {
    s.subrange(skip_whitespace_from(s, 0), s.len() as int)
}

/// `str::trim`: whitespace dropped at both ends.
pub open spec fn trim_text(s: Seq<char>) -> Seq<char> {
    let a = skip_whitespace_from(s, 0);
    if a >= s.len() {
        Seq::empty()
    } else {
        s.subrange(a, trim_whitespace_end(s, s.len() as int))
    }
}

proof fn lemma_skip_whitespace_bounds(s: Seq<char>, i: int)
    requires
        0 <= i <= s.len(),
    ensures
        i <= skip_whitespace_from(s, i) <= s.len(),
        skip_whitespace_from(s, i) < s.len() ==> !is_whitespace(s[skip_whitespace_from(s, i)]),
    decreases s.len() - i,
{
    if i < s.len() && is_whitespace(s[i]) {
        lemma_skip_whitespace_bounds(s, i + 1);
    }
}

proof fn lemma_trim_whitespace_end_bounds(s: Seq<char>, j: int, a: int)
    requires
        0 <= a < j <= s.len(),
        !is_whitespace(s[a]),
    ensures
        a < trim_whitespace_end(s, j) <= j,
    decreases j,
{
    if is_whitespace(s[j - 1]) {
        lemma_trim_whitespace_end_bounds(s, j - 1, a);
    }
}

/// `s` without its leading whitespace.
pub fn trim_start_str(s: &str) -> (r: &str)
    ensures
        r@ == trim_start_text(s@),
{
    let cs = chars_of(s);
    let mut a: usize = 0;
    while a < cs.len() && char_is_whitespace(cs[a])
        invariant
            a <= cs@.len(),
            cs@ == s@,
            skip_whitespace_from(s@, 0) == skip_whitespace_from(s@, a as int),
        decreases cs@.len() - a,
    {
        a = a + 1;
    }
    s.substring_char(a, cs.len())
}

/// `s` without whitespace at either end.
pub fn trim_str(s: &str) -> (r: &str)
    ensures
        r@ == trim_text(s@),
{
    let cs = chars_of(s);
    let mut a: usize = 0;
    while a < cs.len() && char_is_whitespace(cs[a])
        invariant
            a <= cs@.len(),
            cs@ == s@,
            skip_whitespace_from(s@, 0) == skip_whitespace_from(s@, a as int),
        decreases cs@.len() - a,
    {
        a = a + 1;
    }
    if a >= cs.len() {
        let r = s.substring_char(0, 0);
        proof {
            assert(r@ =~= Seq::<char>::empty());
        }
        return r;
    }
    let mut b: usize = cs.len();
    while b > a + 1 && char_is_whitespace(cs[b - 1])
        invariant
            a < b <= cs@.len(),
            cs@ == s@,
            !is_whitespace(s@[a as int]),
            trim_whitespace_end(s@, s@.len() as int) == trim_whitespace_end(s@, b as int),
        decreases b,
    {
        b = b - 1;
    }
    proof {
        lemma_trim_whitespace_end_bounds(s@, b as int, a as int);
    }
    s.substring_char(a, b)
}

/// A line is its leading whitespace followed by its trimmed start.
pub proof fn lemma_trim_start_split(s: Seq<char>)
    ensures
        trim_start_text(s).len() <= s.len(),
        s == s.subrange(0, s.len() - trim_start_text(s).len()) + trim_start_text(s),
{
    lemma_skip_whitespace_bounds(s, 0);
    assert(s =~= s.subrange(0, skip_whitespace_from(s, 0)) + s.subrange(skip_whitespace_from(s, 0), s.len() as int));
}

/// A word without whitespace at its ends is its own trim.
pub proof fn lemma_trim_ascii_word(s: Seq<char>)
    requires
        s.len() > 0,
        !is_whitespace(s[0]),
        !is_whitespace(s[s.len() - 1]),
    ensures
        trim_text(s) == s,
{
    assert(skip_whitespace_from(s, 0) == 0);
    assert(trim_whitespace_end(s, s.len() as int) == s.len());
    assert(s.subrange(0, s.len() as int) =~= s);
}

} // verus!
