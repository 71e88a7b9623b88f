//! Character-level text utilities: string equality, log escaping, and
//! splitting on a separator character.

use vstd::prelude::*;
use vstd::string::*;

verus! {

/// One character, rendered for a log line: a newline or carriage return
/// becomes a visible two-character escape; every other character stands as
/// itself.
pub open spec fn spec_escape_char(c: char) -> Seq<char> {
    if c == '\n' {
        seq!['\\', 'n']
    } else if c == '\r' {
        seq!['\\', 'r']
    } else {
        seq![c]
    }
}

/// `s` with every newline and carriage return replaced by a visible escape.
pub open spec fn spec_escape(s: Seq<char>) -> Seq<char>
    decreases s.len(),
{
    if s.len() == 0 {
        Seq::empty()
    } else {
        spec_escape(s.drop_last()) + spec_escape_char(s.last())
    }
}

/// Renders control characters in `st` visibly, so that device commands can
/// be logged on one line.
pub fn escape_chars(st: &str) -> (r: String)
    ensures
        r@ == spec_escape(st@),
{
    let n = st.unicode_len();
    let mut out = String::new();
    let mut i: usize = 0;
    while i < n
        invariant
            i <= n,
            n == st@.len(),
            out@ == spec_escape(st@.subrange(0, i as int)),
        decreases n - i,
    {
        let c = st.get_char(i);
        if c == '\n' {
            out.append("\\n");
            proof {
                reveal_strlit("\\n");
                assert("\\n"@ =~= spec_escape_char(c));
            }
        } else if c == '\r' {
            out.append("\\r");
            proof {
                reveal_strlit("\\r");
                assert("\\r"@ =~= spec_escape_char(c));
            }
        } else {
            let piece = st.substring_char(i, i + 1);
            out.append(piece);
            proof {
                assert(piece@ =~= spec_escape_char(c));
            }
        }
        i = i + 1;
        proof {
            let pre = st@.subrange(0, i as int);
            assert(pre.drop_last() =~= st@.subrange(0, i - 1));
            assert(pre.last() == c);
        }
    }
    proof {
        assert(st@.subrange(0, n as int) =~= st@);
    }
    out
}

/// Character-for-character string equality, with its meaning over views.
pub fn str_eq(a: &str, b: &str) -> (r: bool)
    ensures
        r == (a@ == b@),
{
    let na = a.unicode_len();
    let nb = b.unicode_len();
    if na != nb {
        return false;
    }
    let mut i: usize = 0;
    while i < na
        invariant
            i <= na,
            na == a@.len(),
            na == b@.len(),
            forall|k: int| 0 <= k < i ==> a@[k] == b@[k],
        decreases na - i,
    {
        if a.get_char(i) != b.get_char(i) {
            return false;
        }
        i = i + 1;
    }
    proof {
        assert(a@ =~= b@);
    }
    true
}

/// Index of the first occurrence of `sep` in `s`, if any.
pub fn find_char_in(s: &str, sep: char) -> (r: Option<usize>)
    ensures
        match r {
            Some(i) => i < s@.len() && s@[i as int] == sep && (forall|k: int|
                0 <= k < i ==> s@[k] != sep),
            None => forall|k: int| 0 <= k < s@.len() ==> s@[k] != sep,
        },
{
    let n = s.unicode_len();
    let mut i: usize = 0;
    while i < n
        invariant
            i <= n,
            n == s@.len(),
            forall|k: int| 0 <= k < i ==> s@[k] != sep,
        decreases n - i,
    {
        if s.get_char(i) == sep {
            return Some(i);
        }
        i = i + 1;
    }
    None
}

/// The parts of `s` between occurrences of `sep`: splitting a string with no
/// separator yields one part, and each separator ends the part before it, so
/// there is always exactly one part more than there are separators.
pub open spec fn spec_split(s: Seq<char>, sep: char) -> Seq<Seq<char>>
    decreases s.len(),
{
    if s.len() == 0 {
        seq![Seq::<char>::empty()]
    } else if s[0] == sep {
        seq![Seq::<char>::empty()] + spec_split(s.drop_first(), sep)
    } else {
        let rest = spec_split(s.drop_first(), sep);
        seq![seq![s[0]] + rest[0]] + rest.drop_first()
    }
}

pub proof fn lemma_split_len(s: Seq<char>, sep: char)
    ensures
        spec_split(s, sep).len() >= 1,
    decreases s.len(),
{
    if s.len() > 0 {
        lemma_split_len(s.drop_first(), sep);
    }
}

/// A string without the separator splits into itself alone.
pub proof fn lemma_split_no_sep(s: Seq<char>, sep: char)
    requires
        forall|k: int| 0 <= k < s.len() ==> s[k] != sep,
    ensures
        spec_split(s, sep) =~= seq![s],
    decreases s.len(),
{
    if s.len() > 0 {
        assert(s[0] != sep);
        let d = s.drop_first();
        assert forall|k: int| 0 <= k < d.len() implies d[k] != sep by {
            assert(d[k] == s[k + 1]);
        }
        lemma_split_no_sep(d, sep);
        let rest = spec_split(d, sep);
        assert(spec_split(s, sep) == seq![seq![s[0]] + rest[0]] + rest.drop_first());
        assert(rest[0] == d);
        assert(seq![s[0]] + rest[0] =~= s);
        assert(rest.drop_first() =~= Seq::<Seq<char>>::empty());
        assert(spec_split(s, sep) =~= seq![s]);
    } else {
        assert(s =~= Seq::<char>::empty());
    }
}

/// Splitting at the first separator: the part before it, then the split of
/// the remainder.
pub proof fn lemma_split_at_first(s: Seq<char>, sep: char, i: int)
    requires
        0 <= i < s.len(),
        s[i] == sep,
        forall|k: int| 0 <= k < i ==> s[k] != sep,
    ensures
        spec_split(s, sep) =~= seq![s.subrange(0, i)] + spec_split(
            s.subrange(i + 1, s.len() as int),
            sep,
        ),
    decreases s.len(),
{
    if i == 0 {
        assert(s.subrange(0, 0) =~= Seq::<char>::empty());
        assert(s.subrange(1, s.len() as int) =~= s.drop_first());
    } else {
        let d = s.drop_first();
        assert forall|k: int| 0 <= k < i - 1 implies d[k] != sep by {
            assert(d[k] == s[k + 1]);
        }
        assert(d[i - 1] == sep);
        lemma_split_at_first(d, sep, i - 1);
        let rest = spec_split(d, sep);
        lemma_split_len(d.subrange(i, d.len() as int), sep);
        assert(rest[0] == d.subrange(0, i - 1));
        assert(seq![s[0]] + rest[0] =~= s.subrange(0, i));
        assert(d.subrange(i, d.len() as int) =~= s.subrange(i + 1, s.len() as int));
        assert(rest.drop_first() =~= spec_split(s.subrange(i + 1, s.len() as int), sep));
    }
}

/// Joining three separator-free parts with the separator and splitting the
/// result yields the three parts back.
pub proof fn lemma_split_three(a: Seq<char>, b: Seq<char>, c: Seq<char>, sep: char)
    requires
        forall|k: int| 0 <= k < a.len() ==> a[k] != sep,
        forall|k: int| 0 <= k < b.len() ==> b[k] != sep,
        forall|k: int| 0 <= k < c.len() ==> c[k] != sep,
    ensures
        spec_split(a + seq![sep] + b + seq![sep] + c, sep) =~= seq![a, b, c],
{
    let s = a + seq![sep] + b + seq![sep] + c;
    let t = b + seq![sep] + c;
    let i = a.len() as int;
    assert(s =~= a + seq![sep] + t);
    assert(s[i] == sep);
    assert forall|k: int| 0 <= k < i implies s[k] != sep by {
        assert(s[k] == a[k]);
    }
    lemma_split_at_first(s, sep, i);
    assert(s.subrange(0, i) =~= a);
    assert(s.subrange(i + 1, s.len() as int) =~= t);
    let j = b.len() as int;
    assert(t[j] == sep);
    assert forall|k: int| 0 <= k < j implies t[k] != sep by {
        assert(t[k] == b[k]);
    }
    lemma_split_at_first(t, sep, j);
    assert(t.subrange(0, j) =~= b);
    assert(t.subrange(j + 1, t.len() as int) =~= c);
    lemma_split_no_sep(c, sep);
    assert(spec_split(t, sep) =~= seq![b] + seq![c]);
    assert(spec_split(s, sep) =~= seq![a] + (seq![b] + seq![c]));
}

/// The views of an executable part list.
pub open spec fn parts_view(parts: Seq<String>) -> Seq<Seq<char>> {
    parts.map_values(|p: String| p@)
}

/// Splits `s` on every occurrence of `sep`.
pub fn split_str(s: &str, sep: char) -> (parts: Vec<String>)
    ensures
        parts_view(parts@) == spec_split(s@, sep),
    decreases s@.len(),
{
    match find_char_in(s, sep) {
        None => {
            proof {
                lemma_split_no_sep(s@, sep);
            }
            let mut parts: Vec<String> = Vec::new();
            parts.push(String::from_str(s));
            proof {
                assert(parts_view(parts@) =~= seq![s@]);
            }
            parts
        },
        Some(i) => {
            let n = s.unicode_len();
            let head = s.substring_char(0, i);
            let tail = s.substring_char(i + 1, n);
            proof {
                lemma_split_at_first(s@, sep, i as int);
            }
            let mut rest = split_str(tail, sep);
            let mut parts: Vec<String> = Vec::new();
            parts.push(String::from_str(head));
            parts.append(&mut rest);
            proof {
                assert(parts_view(parts@) =~= seq![s@.subrange(0, i as int)] + spec_split(
                    tail@,
                    sep,
                ));
            }
            parts
        },
    }
}

} // verus!
