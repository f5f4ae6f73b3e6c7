//! Small text operations shared by the outline renderer and the reference
//! reporter: whitespace trimming, first-line extraction, and snippet
//! derivation.

use vstd::prelude::*;
use vstd::string::StrSliceExecFns;

verus! {

/// Unicode whitespace, as trimming recognises it.
pub open spec fn is_space_char(c: char) -> bool {
    let u = c as u32;
    ||| u == 0x20
    ||| (0x09 <= u && u <= 0x0D)
    ||| u == 0x85
    ||| u == 0xA0
    ||| u == 0x1680
    ||| (0x2000 <= u && u <= 0x200A)
    ||| u == 0x2028
    ||| u == 0x2029
    ||| u == 0x202F
    ||| u == 0x205F
    ||| u == 0x3000
}

fn is_space(c: char) -> (r: bool)
    ensures
        r == is_space_char(c),
{
    let u = c as u32;
    u == 0x20 || (0x09 <= u && u <= 0x0D) || u == 0x85 || u == 0xA0 || u == 0x1680 || (0x2000 <= u
        && u <= 0x200A) || u == 0x2028 || u == 0x2029 || u == 0x202F || u == 0x205F || u == 0x3000
}

/// `s` without its leading whitespace.
pub open spec fn trim_front(s: Seq<char>) -> Seq<char>
    decreases s.len(),
{
    if s.len() > 0 && is_space_char(s[0]) {
        trim_front(s.drop_first())
    } else {
        s
    }
}

/// `s` without its trailing whitespace.
pub open spec fn trim_back(s: Seq<char>) -> Seq<char>
    decreases s.len(),
{
    if s.len() > 0 && is_space_char(s.last()) {
        trim_back(s.drop_last())
    } else {
        s
    }
}

/// `s` without leading and trailing whitespace.
pub open spec fn trim_of(s: Seq<char>) -> Seq<char> {
    trim_back(trim_front(s))
}

proof fn lemma_trim_front_skip(s: Seq<char>, a: int)
    requires
        0 <= a <= s.len(),
        forall|j: int| 0 <= j < a ==> is_space_char(s[j]),
        a == s.len() || !is_space_char(s[a]),
    ensures
        trim_front(s) == s.skip(a),
    decreases a,
{
    if a == 0 {
        assert(s.skip(0) =~= s);
    } else {
        lemma_trim_front_skip(s.drop_first(), a - 1);
        assert(s.drop_first().skip(a - 1) =~= s.skip(a));
    }
}

proof fn lemma_trim_back_take(s: Seq<char>, b: int)
    requires
        0 <= b <= s.len(),
        forall|j: int| b <= j < s.len() ==> is_space_char(s[j]),
        b == 0 || !is_space_char(s[b - 1]),
    ensures
        trim_back(s) == s.take(b),
    decreases s.len(),
{
    if b == s.len() {
        assert(s.take(b) =~= s);
    } else {
        lemma_trim_back_take(s.drop_last(), b);
        assert(s.drop_last().take(b) =~= s.take(b));
    }
}

/// Removes leading and trailing whitespace, as `str::trim` does.
pub fn trim_str(s: &str) -> (r: String)
    ensures
        r@ == trim_of(s@),
{
    let n = s.unicode_len();
    let mut a: usize = 0;
    loop
        invariant
            n == s@.len(),
            0 <= a <= n,
            forall|j: int| 0 <= j < a ==> is_space_char(s@[j]),
        ensures
            0 <= a <= n,
            forall|j: int| 0 <= j < a ==> is_space_char(s@[j]),
            a == n || !is_space_char(s@[a as int]),
        decreases n - a,
    {
        if a >= n {
            break ;
        }
        if !is_space(s.get_char(a)) {
            break ;
        }
        a += 1;
    }
    let mut b: usize = n;
    loop
        invariant
            n == s@.len(),
            0 <= a <= b <= n,
            forall|j: int| 0 <= j < a ==> is_space_char(s@[j]),
            a == n || !is_space_char(s@[a as int]),
            forall|j: int| b <= j < n ==> is_space_char(s@[j]),
        ensures
            0 <= a <= b <= n,
            forall|j: int| 0 <= j < a ==> is_space_char(s@[j]),
            a == n || !is_space_char(s@[a as int]),
            forall|j: int| b <= j < n ==> is_space_char(s@[j]),
            b == a || !is_space_char(s@[b - 1]),
        decreases b,
    {
        if b <= a {
            break ;
        }
        if !is_space(s.get_char(b - 1)) {
            break ;
        }
        b -= 1;
    }
    proof {
        lemma_trim_front_skip(s@, a as int);
        let t = s@.skip(a as int);
        lemma_trim_back_take(t, b - a);
        assert(t.take(b - a) =~= s@.subrange(a as int, b as int));
    }
    s.substring_char(a, b).to_owned()
}

/// The index of the first line feed in `s`, or the length of `s` when it has
/// none.
pub open spec fn line_feed_index(s: Seq<char>) -> int
    decreases s.len(),
{
    if s.len() == 0 {
        0
    } else if s[0] == '\n' {
        0
    } else {
        1 + line_feed_index(s.drop_first())
    }
}

/// `s` without one trailing carriage return, when it has one.
pub open spec fn strip_last_cr(s: Seq<char>) -> Seq<char> {
    if s.len() > 0 && s.last() == '\r' {
        s.drop_last()
    } else {
        s
    }
}

/// The first line of `s`: everything before the first line feed (the whole of
/// `s` when it has none), with one trailing carriage return removed — what
/// `str::lines` yields first, or the empty sequence when `s` is empty.
pub open spec fn first_line_of(s: Seq<char>) -> Seq<char> {
    strip_last_cr(s.take(line_feed_index(s)))
}

proof fn lemma_line_feed_index(s: Seq<char>, i: int)
    requires
        0 <= i <= s.len(),
        forall|j: int| 0 <= j < i ==> s[j] != '\n',
        i == s.len() || s[i] == '\n',
    ensures
        line_feed_index(s) == i,
    decreases i,
{
    if i > 0 {
        lemma_line_feed_index(s.drop_first(), i - 1);
    }
}

/// The first line of `s`, as `str::lines` yields it.
pub fn first_line(s: &str) -> (r: String)
    ensures
        r@ == first_line_of(s@),
{
    let n = s.unicode_len();
    let mut i: usize = 0;
    loop
        invariant
            n == s@.len(),
            0 <= i <= n,
            forall|j: int| 0 <= j < i ==> s@[j] != '\n',
        ensures
            0 <= i <= n,
            forall|j: int| 0 <= j < i ==> s@[j] != '\n',
            i == n || s@[i as int] == '\n',
        decreases n - i,
    {
        if i >= n {
            break ;
        }
        if s.get_char(i) == '\n' {
            break ;
        }
        i += 1;
    }
    proof {
        lemma_line_feed_index(s@, i as int);
    }
    let mut end = i;
    if end > 0 && s.get_char(end - 1) == '\r' {
        end -= 1;
        proof {
            assert(s@.take(i as int).drop_last() =~= s@.subrange(0, end as int));
        }
    } else {
        proof {
            assert(s@.take(i as int) =~= s@.subrange(0, end as int));
        }
    }
    s.substring_char(0, end).to_owned()
}

/// The signature snippet derived from the text at the start of a symbol's
/// source range: its first line, trimmed, when that is non-empty.
pub open spec fn snippet_of(source: Seq<char>) -> Option<Seq<char>> {
    let t = trim_of(first_line_of(source));
    if t.len() == 0 {
        None
    } else {
        Some(t)
    }
}

/// Derives the signature snippet for an outline item from the raw text at the
/// start of its source range.
pub fn signature_snippet(source: &str) -> (r: Option<String>)
    ensures
        r is Some <==> snippet_of(source@) is Some,
        r matches Some(t) ==> Some(t@) == snippet_of(source@),
{
    let fl = first_line(source);
    let t = trim_str(fl.as_str());
    if t.as_str().is_empty() {
        None
    } else {
        Some(t)
    }
}

/// `s` without its trailing carriage returns and line feeds.
pub open spec fn trim_line_ends(s: Seq<char>) -> Seq<char>
    decreases s.len(),
{
    if s.len() > 0 && (s.last() == '\r' || s.last() == '\n') {
        trim_line_ends(s.drop_last())
    } else {
        s
    }
}

proof fn lemma_trim_line_ends_take(s: Seq<char>, b: int)
    requires
        0 <= b <= s.len(),
        forall|j: int| b <= j < s.len() ==> s[j] == '\r' || s[j] == '\n',
        b == 0 || !(s[b - 1] == '\r' || s[b - 1] == '\n'),
    ensures
        trim_line_ends(s) == s.take(b),
    decreases s.len(),
{
    if b == s.len() {
        assert(s.take(b) =~= s);
    } else {
        lemma_trim_line_ends_take(s.drop_last(), b);
        assert(s.drop_last().take(b) =~= s.take(b));
    }
}

/// Removes trailing carriage returns and line feeds, as trimming the end of a
/// line for a one-line excerpt does.
pub fn trim_trailing_newlines(s: &str) -> (r: String)
    ensures
        r@ == trim_line_ends(s@),
{
    let n = s.unicode_len();
    let mut b: usize = n;
    loop
        invariant
            n == s@.len(),
            0 <= b <= n,
            forall|j: int| b <= j < n ==> s@[j] == '\r' || s@[j] == '\n',
        ensures
            0 <= b <= n,
            forall|j: int| b <= j < n ==> s@[j] == '\r' || s@[j] == '\n',
            b == 0 || !(s@[b - 1] == '\r' || s@[b - 1] == '\n'),
        decreases b,
    {
        if b == 0 {
            break ;
        }
        let c = s.get_char(b - 1);
        if !(c == '\r' || c == '\n') {
            break ;
        }
        b -= 1;
    }
    proof {
        lemma_trim_line_ends_take(s@, b as int);
        assert(s@.take(b as int) =~= s@.subrange(0, b as int));
    }
    s.substring_char(0, b).to_owned()
}

} // verus!
