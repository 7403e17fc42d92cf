//! Small verified text utilities: string equality and file-extension
//! extraction.

use vstd::prelude::*;
use vstd::string::StrSliceExecFns;

verus! {

/// Compares two strings character by character.
pub fn str_eq(a: &str, b: &str) -> (r: bool)
    ensures
        r == (a@ == b@),
{
    let na = a.unicode_len();
    let nb = b.unicode_len();
    if na != nb {
        proof {
            assert(a@.len() != b@.len());
        }
        return false;
    }
    let mut i: usize = 0;
    while i < na
        invariant
            i <= na,
            na == a@.len(),
            na == b@.len(),
            forall|k: int| 0 <= k < i ==> a@[k] == b@[k],
        decreases na - i,
    {
        if a.get_char(i) != b.get_char(i) {
            return false;
        }
        i = i + 1;
    }
    proof {
        assert(a@ =~= b@);
    }
    true
}

/// The index of the last `.` in a sequence, or minus one if none occurs.
pub open spec fn last_dot(s: Seq<char>) -> int
    decreases s.len(),
{
    if s.len() == 0 {
        -1
    } else if s.last() == '.' {
        s.len() - 1
    } else {
        last_dot(s.drop_last())
    }
}

/// A dot with nothing but non-dots after it is the last dot.
proof fn lemma_last_dot_from(s: Seq<char>, j: int)
    requires
        0 <= j < s.len(),
        s[j] == '.',
        forall|k: int| j < k < s.len() ==> s[k] != '.',
    ensures
        last_dot(s) == j,
    decreases s.len(),
{
    if j == s.len() - 1 {
    } else {
        assert forall|k: int| j < k < s.drop_last().len() implies s.drop_last()[k]
            != '.' by {
            assert(s.drop_last()[k] == s[k]);
        }
        assert(s.drop_last()[j] == s[j]);
        lemma_last_dot_from(s.drop_last(), j);
    }
}

/// Without any dot there is no last dot.
proof fn lemma_no_dot(s: Seq<char>)
    requires
        forall|k: int| 0 <= k < s.len() ==> s[k] != '.',
    ensures
        last_dot(s) == -1,
    decreases s.len(),
{
    if s.len() > 0 {
        assert forall|k: int| 0 <= k < s.drop_last().len() implies s.drop_last()[k]
            != '.' by {
            assert(s.drop_last()[k] == s[k]);
        }
        lemma_no_dot(s.drop_last());
    }
}

/// The file extension of a path: what follows its last dot, or the empty
/// string where there is no dot.
pub open spec fn spec_extension(s: Seq<char>) -> Seq<char> {
    if last_dot(s) == -1 {
        Seq::empty()
    } else {
        s.skip(last_dot(s) + 1)
    }
}

/// Returns the file extension of a path: the text after its last dot.
/// Returns an empty string where the path holds no dot.
pub fn extension_of<'a>(path: &'a str) -> (r: &'a str)
    ensures
        r@ == spec_extension(path@),
{
    let n = path.unicode_len();
    let mut j: usize = n;
    while j > 0
        invariant
            j <= n,
            n == path@.len(),
            forall|k: int| j <= k < n ==> path@[k] != '.',
        decreases j,
    {
        j = j - 1;
        if path.get_char(j) == '.' {
            proof {
                lemma_last_dot_from(path@, j as int);
            }
            let r = path.substring_char(j + 1, n);
            proof {
                assert(r@ =~= spec_extension(path@));
            }
            return r;
        }
    }
    proof {
        lemma_no_dot(path@);
    }
    let r = path.substring_char(n, n);
    proof {
        assert(r@ =~= spec_extension(path@));
    }
    r
}


/// Whether a character is line-trim whitespace: space, tab, or a carriage
/// return left by a Windows line ending.
pub open spec fn is_ws(c: char) -> bool {
    c == ' ' || c == '\t' || c == '\r'
}

/// The first index at or after `i` holding a non-whitespace character, or
/// the length if none follows.
pub open spec fn skip_ws(l: Seq<char>, i: int) -> int
    decreases l.len() - i,
{
    if i < 0 || i >= l.len() {
        l.len() as int
    } else if is_ws(l[i]) {
        skip_ws(l, i + 1)
    } else {
        i
    }
}

/// One past the last non-whitespace character strictly before `j`, or zero
/// if only whitespace precedes it.
pub open spec fn ws_end(l: Seq<char>, j: int) -> int
    decreases j,
{
    if j <= 0 || j > l.len() {
        0
    } else if is_ws(l[j - 1]) {
        ws_end(l, j - 1)
    } else {
        j
    }
}

/// A line with its leading and trailing whitespace removed.
pub open spec fn spec_trim(l: Seq<char>) -> Seq<char> {
    let a = skip_ws(l, 0);
    let b = ws_end(l, l.len() as int);
    if a >= b {
        Seq::empty()
    } else {
        l.subrange(a, b)
    }
}

/// The index of the first newline at or after `i`, or the length if none.
pub open spec fn find_nl(s: Seq<char>, i: int) -> int
    decreases s.len() - i,
{
    if i < 0 || i >= s.len() {
        s.len() as int
    } else if s[i] == '\n' {
        i
    } else {
        find_nl(s, i + 1)
    }
}

/// The lines of a text, split on newline characters; a trailing newline
/// closes the last line rather than opening an empty one.
pub open spec fn spec_split_lines(s: Seq<char>) -> Seq<Seq<char>>
    decreases s.len(),
{
    if s.len() == 0 {
        Seq::empty()
    } else {
        let k = find_nl(s, 0);
        if 0 <= k && k < s.len() {
            seq![s.take(k)] + spec_split_lines(s.skip(k + 1))
        } else {
            seq![s]
        }
    }
}

/// The slice `s[from..to]` with its surrounding whitespace removed.
pub fn trimmed_slice<'a>(s: &'a str, from: usize, to: usize) -> (r: &'a str)
    requires
        from <= to <= s@.len(),
    ensures
        r@ == spec_trim(s@.subrange(from as int, to as int)),
{
    let ghost l = s@.subrange(from as int, to as int);
    let mut a: usize = from;
    while a < to && (s.get_char(a) == ' ' || s.get_char(a) == '\t' || s.get_char(a) == '\r')
        invariant
            from <= a <= to <= s@.len(),
            l == s@.subrange(from as int, to as int),
            skip_ws(l, 0) == skip_ws(l, a - from),
        decreases to - a,
    {
        proof {
            assert(l[a - from] == s@[a as int]);
        }
        a = a + 1;
    }
    proof {
        if a < to {
            assert(l[a - from] == s@[a as int]);
            assert(skip_ws(l, a - from) == a - from);
        }
    }
    if a == to {
        let r = s.substring_char(a, a);
        proof {
            lemma_ws_end_le(l, l.len() as int);
            assert(r@ =~= spec_trim(l));
        }
        return r;
    }
    let mut b: usize = to;
    while b > a && (s.get_char(b - 1) == ' ' || s.get_char(b - 1) == '\t' || s.get_char(b - 1)
        == '\r')
        invariant
            from <= a < b,
            b <= to <= s@.len(),
            a < to,
            l == s@.subrange(from as int, to as int),
            skip_ws(l, 0) == a - from,
            !is_ws(l[a - from]),
            ws_end(l, to - from) == ws_end(l, b - from),
        decreases b,
    {
        proof {
            assert(l[b - 1 - from] == s@[b - 1 as int]);
            assert(b - 1 > a) by {
                if b - 1 == a {
                    assert(is_ws(l[a - from]));
                }
            }
        }
        b = b - 1;
    }
    proof {
        assert(l[b - 1 - from] == s@[b - 1 as int]);
        assert(ws_end(l, b - from) == b - from);
        lemma_ws_end_le(l, l.len() as int);
    }
    let r = s.substring_char(a, b);
    proof {
        assert(r@ =~= spec_trim(l));
    }
    r
}

/// The trimmed end of a line never runs past the point it starts from.
proof fn lemma_ws_end_le(l: Seq<char>, j: int)
    ensures
        0 <= ws_end(l, j) <= (if j < 0 {
            0int
        } else {
            j
        }),
    decreases
            if j > 0 {
                j
            } else {
                0
            },
{
    if 0 < j <= l.len() && is_ws(l[j - 1]) {
        lemma_ws_end_le(l, j - 1);
    }
}


/// A text has no more lines than characters.
pub proof fn lemma_split_lines_len_le(s: Seq<char>)
    ensures
        spec_split_lines(s).len() <= s.len(),
    decreases s.len(),
{
    if s.len() > 0 {
        let k = find_nl(s, 0);
        if 0 <= k && k < s.len() {
            lemma_split_lines_len_le(s.skip(k + 1));
        }
    }
}

} // verus!
