//! Character-level rules for the identifiers that cross the API boundary:
//! usernames, passwords, and the strings that may be embedded verbatim in a
//! JSON event envelope.

use vstd::prelude::*;

verus! {

/// A character allowed in a username: ASCII letters, digits, or '@'.
pub open spec fn username_char(c: char) -> bool {
    ('a' <= c && c <= 'z') || ('A' <= c && c <= 'Z') || ('0' <= c && c <= '9') || c == '@'
}

/// A character allowed in a password: the username characters plus '*'.
pub open spec fn password_char(c: char) -> bool {
    username_char(c) || c == '*'
}

/// A well-formed username: one to twelve characters, all from the username
/// character class.
pub open spec fn valid_username(s: Seq<char>) -> bool {
    1 <= s.len() <= 12 && (forall|i: int| 0 <= i < s.len() ==> username_char(#[trigger] s[i]))
}

/// A well-formed password: one to twelve characters, all from the password
/// character class.
pub open spec fn valid_password(s: Seq<char>) -> bool {
    1 <= s.len() <= 12 && (forall|i: int| 0 <= i < s.len() ==> password_char(#[trigger] s[i]))
}

/// A character that may stand unescaped inside a JSON string literal:
/// anything at or above the space character except '"' and '\'.
pub open spec fn json_safe_char(c: char) -> bool {
    ' ' <= c && c != '"' && c != '\\'
}

/// A string that may be embedded verbatim between quotes in JSON output.
pub open spec fn json_safe(s: Seq<char>) -> bool {
    forall|i: int| 0 <= i < s.len() ==> json_safe_char(#[trigger] s[i])
}

/// A valid username needs no escaping inside a JSON string literal.
pub proof fn lemma_valid_username_json_safe(s: Seq<char>)
    requires
        valid_username(s),
    ensures
        json_safe(s),
{
    assert forall|i: int| 0 <= i < s.len() implies json_safe_char(#[trigger] s[i]) by {
        assert(username_char(s[i]));
    }
}

/// Checks whether `s` is a well-formed username.
pub fn check_username(s: &str) -> (r: bool)
    ensures
        r == valid_username(s@),
{
    let n = s.unicode_len();
    if n < 1 || n > 12 {
        return false;
    }
    for i in 0..n
        invariant
            n == s@.len(),
            1 <= n <= 12,
            forall|j: int| 0 <= j < i ==> username_char(#[trigger] s@[j]),
    {
        let c = s.get_char(i);
        if !(('a' <= c && c <= 'z') || ('A' <= c && c <= 'Z') || ('0' <= c && c <= '9') || c
            == '@') {
            return false;
        }
    }
    true
}

/// Checks whether `s` is a well-formed password.
pub fn check_password(s: &str) -> (r: bool)
    ensures
        r == valid_password(s@),
{
    let n = s.unicode_len();
    if n < 1 || n > 12 {
        return false;
    }
    for i in 0..n
        invariant
            n == s@.len(),
            1 <= n <= 12,
            forall|j: int| 0 <= j < i ==> password_char(#[trigger] s@[j]),
    {
        let c = s.get_char(i);
        if !(('a' <= c && c <= 'z') || ('A' <= c && c <= 'Z') || ('0' <= c && c <= '9') || c == '@'
            || c == '*') {
            return false;
        }
    }
    true
}

/// Concatenating two JSON-safe strings stays JSON-safe.
pub proof fn lemma_json_safe_concat(a: Seq<char>, b: Seq<char>)
    requires
        json_safe(a),
        json_safe(b),
    ensures
        json_safe(a + b),
{
    assert forall|i: int| 0 <= i < (a + b).len() implies json_safe_char(#[trigger] (a + b)[i]) by {
        if i < a.len() {
            assert((a + b)[i] == a[i]);
        } else {
            assert((a + b)[i] == b[i - a.len()]);
        }
    }
}

/// Lexicographic order on character sequences: the order used to elect a new
/// lobby leader deterministically.
pub open spec fn lex_le(a: Seq<char>, b: Seq<char>) -> bool
    decreases a.len(),
{
    if a.len() == 0 {
        true
    } else if b.len() == 0 {
        false
    } else if a[0] == b[0] {
        lex_le(a.drop_first(), b.drop_first())
    } else {
        a[0] < b[0]
    }
}

/// `lex_le` is total: any two sequences are comparable.
pub proof fn lemma_lex_le_total(a: Seq<char>, b: Seq<char>)
    ensures
        lex_le(a, b) || lex_le(b, a),
    decreases a.len(),
{
    if a.len() != 0 && b.len() != 0 && a[0] == b[0] {
        lemma_lex_le_total(a.drop_first(), b.drop_first());
    }
}

/// `lex_le` is antisymmetric: mutual order means equality.
pub proof fn lemma_lex_le_antisymmetric(a: Seq<char>, b: Seq<char>)
    requires
        lex_le(a, b),
        lex_le(b, a),
    ensures
        a == b,
    decreases a.len(),
{
    if a.len() == 0 {
        assert(b.len() == 0);
        assert(a =~= b);
    } else {
        assert(b.len() != 0);
        assert(a[0] == b[0]);
        lemma_lex_le_antisymmetric(a.drop_first(), b.drop_first());
        assert(a =~= seq![a[0]] + a.drop_first());
        assert(b =~= seq![b[0]] + b.drop_first());
    }
}

/// `lex_le` is transitive.
pub proof fn lemma_lex_le_transitive(a: Seq<char>, b: Seq<char>, c: Seq<char>)
    requires
        lex_le(a, b),
        lex_le(b, c),
    ensures
        lex_le(a, c),
    decreases a.len(),
{
    if a.len() != 0 && b.len() != 0 && c.len() != 0 {
        if a[0] == b[0] && b[0] == c[0] {
            lemma_lex_le_transitive(a.drop_first(), b.drop_first(), c.drop_first());
        }
    }
}

/// Skipping a shared prefix does not change the order of two sequences.
proof fn lemma_lex_le_skip(a: Seq<char>, b: Seq<char>, i: int)
    requires
        0 <= i <= a.len(),
        i <= b.len(),
        forall|j: int| 0 <= j < i ==> a[j] == b[j],
    ensures
        lex_le(a, b) == lex_le(a.skip(i), b.skip(i)),
    decreases i,
{
    if i > 0 {
        assert(a.len() != 0 && b.len() != 0 && a[0] == b[0]);
        lemma_lex_le_skip(a.drop_first(), b.drop_first(), i - 1);
        assert(a.drop_first().skip(i - 1) =~= a.skip(i));
        assert(b.drop_first().skip(i - 1) =~= b.skip(i));
    } else {
        assert(a.skip(0) =~= a);
        assert(b.skip(0) =~= b);
    }
}

/// Compares two strings in the lexicographic order `lex_le`.
pub fn str_le(a: &str, b: &str) -> (r: bool)
    ensures
        r == lex_le(a@, b@),
{
    let an = a.unicode_len();
    let bn = b.unicode_len();
    let n = if an < bn {
        an
    } else {
        bn
    };
    for i in 0..n
        invariant
            an == a@.len(),
            bn == b@.len(),
            n == if an < bn {
                an
            } else {
                bn
            },
            forall|j: int| 0 <= j < i ==> a@[j] == b@[j],
    {
        let ca = a.get_char(i);
        let cb = b.get_char(i);
        if ca != cb {
            proof {
                lemma_lex_le_skip(a@, b@, i as int);
            }
            return ca < cb;
        }
    }
    proof {
        lemma_lex_le_skip(a@, b@, n as int);
    }
    an <= bn
}

/// The lexicographically smallest sequence among `ms` (the deterministic
/// leader-election rule). Empty input yields the empty sequence.
pub open spec fn lex_min(ms: Seq<Seq<char>>) -> Seq<char>
    decreases ms.len(),
{
    if ms.len() == 0 {
        Seq::empty()
    } else if ms.len() == 1 {
        ms[0]
    } else {
        let m = lex_min(ms.drop_last());
        if lex_le(m, ms.last()) {
            m
        } else {
            ms.last()
        }
    }
}

/// The minimum of a non-empty list is one of its elements.
pub proof fn lemma_lex_min_contains(ms: Seq<Seq<char>>)
    requires
        ms.len() > 0,
    ensures
        ms.contains(lex_min(ms)),
    decreases ms.len(),
{
    if ms.len() == 1 {
        assert(ms[0] == lex_min(ms));
    } else {
        lemma_lex_min_contains(ms.drop_last());
        let m = lex_min(ms.drop_last());
        if lex_le(m, ms.last()) {
            let i = choose|i: int| 0 <= i < ms.drop_last().len() && ms.drop_last()[i] == m;
            assert(ms[i] == m);
        } else {
            assert(ms[ms.len() - 1] == ms.last());
        }
    }
}

/// The minimum of a list is below every element.
pub proof fn lemma_lex_min_le(ms: Seq<Seq<char>>, i: int)
    requires
        0 <= i < ms.len(),
    ensures
        lex_le(lex_min(ms), ms[i]),
    decreases ms.len(),
{
    if ms.len() == 1 {
        lemma_lex_le_total(ms[0], ms[0]);
    } else {
        let m = lex_min(ms.drop_last());
        lemma_lex_le_total(m, ms.last());
        if i == ms.len() - 1 {
            if lex_le(m, ms.last()) {
                lemma_lex_le_total(ms.last(), ms.last());
            } else {
                lemma_lex_le_total(ms.last(), ms.last());
            }
        } else {
            lemma_lex_min_le(ms.drop_last(), i);
            assert(ms.drop_last()[i] == ms[i]);
            if !lex_le(m, ms.last()) {
                lemma_lex_le_transitive(ms.last(), m, ms[i]);
            }
        }
    }
}


/// Picks the lexicographically smallest string of a non-empty list.
pub fn min_string(ms: &Vec<String>) -> (r: String)
    requires
        ms@.len() > 0,
    ensures
        r@ == lex_min(ms.deep_view()),
{
    let n = ms.len();
    let mut cur: String = ms[0].clone();
    proof {
        assert(ms.deep_view().subrange(0, 1) =~= seq![ms.deep_view()[0]]);
    }
    for i in 1..n
        invariant
            n == ms@.len(),
            1 <= i <= n,
            cur@ == lex_min(ms.deep_view().subrange(0, i as int)),
    {
        if !str_le(cur.as_str(), ms[i].as_str()) {
            cur = ms[i].clone();
        }
        proof {
            let mv = ms.deep_view();
            assert(mv.subrange(0, i + 1).drop_last() =~= mv.subrange(0, i as int));
            assert(mv.subrange(0, i + 1).last() == mv[i as int]);
        }
    }
    proof {
        assert(ms.deep_view().subrange(0, ms.deep_view().len() as int) =~= ms.deep_view());
    }
    cur
}


/// Decides equality of two strings' character sequences.
pub fn str_eq(a: &str, b: &str) -> (r: bool)
    ensures
        r == (a@ == b@),
{
    let an = a.unicode_len();
    let bn = b.unicode_len();
    if an != bn {
        return false;
    }
    for i in 0..an
        invariant
            an == a@.len(),
            bn == b@.len(),
            an == bn,
            forall|j: int| 0 <= j < i ==> a@[j] == b@[j],
    {
        if a.get_char(i) != b.get_char(i) {
            return false;
        }
    }
    proof {
        assert(a@ =~= b@);
    }
    true
}

} // verus!
