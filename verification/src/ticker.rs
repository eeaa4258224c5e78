use vstd::prelude::*;

verus! {

/// The code point of `c` after ASCII lower-casing: `'A'..='Z'` map to
/// `'a'..='z'`, every other character keeps its code point.
pub open spec fn ascii_fold(c: char) -> u32 {
    if 65 <= (c as u32) && (c as u32) <= 90 {
        (c as u32 + 32) as u32
    } else {
        c as u32
    }
}

/// Two strings are equal up to ASCII case: same length, and equal character by
/// character once ASCII letters are lower-cased. Non-ASCII characters must be
/// identical.
pub open spec fn eq_ignore_ascii_case_spec(a: Seq<char>, b: Seq<char>) -> bool {
    &&& a.len() == b.len()
    &&& forall|i: int| 0 <= i < a.len() ==> #[trigger] ascii_fold(a[i]) == ascii_fold(b[i])
}

fn fold_char(c: char) -> (r: u32)
    ensures
        r == ascii_fold(c),
{
    let x: u32 = c as u32;
    if 65 <= x && x <= 90 {
        x + 32
    } else {
        x
    }
}

/// The characters of `s`, in order.
fn chars_of(s: &str) -> (v: Vec<char>)
    ensures
        v@ == s@,
{
    let mut v: Vec<char> = Vec::new();
    for c in it: s.chars()
        invariant
            it.seq() == s@,
            v@ == it.seq().take(it.index()),
    {
        v.push(c);
    }
    v
}

/// Checks that two strings are an ASCII case-insensitive match, as
/// `str::eq_ignore_ascii_case` does.
pub fn eq_ignore_ascii_case(a: &str, b: &str) -> (res: bool)
    ensures
        res == eq_ignore_ascii_case_spec(a@, b@),
        res <==> {
            &&& a@.len() == b@.len()
            &&& forall|i: int|
                #![trigger a@[i], b@[i]]
                0 <= i < a@.len() ==> {
                    ||| a@[i] == b@[i]
                    ||| 65 <= (a@[i] as u32) <= 90 && (b@[i] as u32) == (a@[i] as u32) + 32
                    ||| 65 <= (b@[i] as u32) <= 90 && (a@[i] as u32) == (b@[i] as u32) + 32
                }
        },
{
    proof {
        lemma_eq_ignore_ascii_case_meaning(a@, b@);
    }
    let ca = chars_of(a);
    let cb = chars_of(b);
    if ca.len() != cb.len() {
        return false;
    }
    let n = ca.len();
    let mut i: usize = 0;
    while i < n
        invariant
            n == ca@.len(),
            n == cb@.len(),
            ca@ == a@,
            cb@ == b@,
            i <= n,
            forall|j: int| 0 <= j < i ==> #[trigger] ascii_fold(ca@[j]) == ascii_fold(cb@[j]),
        decreases n - i,
    {
        if fold_char(ca[i]) != fold_char(cb[i]) {
            assert(!eq_ignore_ascii_case_spec(a@, b@)) by {
                assert(ascii_fold(a@[i as int]) != ascii_fold(b@[i as int]));
            }
            return false;
        }
        i = i + 1;
    }
    true
}


/// Matching ignoring ASCII case is reflexive.
pub proof fn lemma_eq_ignore_ascii_case_reflexive(a: Seq<char>)
    ensures
        eq_ignore_ascii_case_spec(a, a),
{
}

/// Matching ignoring ASCII case is symmetric.
pub proof fn lemma_eq_ignore_ascii_case_symmetric(a: Seq<char>, b: Seq<char>)
    ensures
        eq_ignore_ascii_case_spec(a, b) == eq_ignore_ascii_case_spec(b, a),
{
    if eq_ignore_ascii_case_spec(a, b) {
        assert forall|i: int| 0 <= i < b.len() implies #[trigger] ascii_fold(b[i]) == ascii_fold(a[i]) by {
            assert(ascii_fold(a[i]) == ascii_fold(b[i]));
        }
    }
    if eq_ignore_ascii_case_spec(b, a) {
        assert forall|i: int| 0 <= i < a.len() implies #[trigger] ascii_fold(a[i]) == ascii_fold(b[i]) by {
            assert(ascii_fold(b[i]) == ascii_fold(a[i]));
        }
    }
}

/// Matching ignoring ASCII case is transitive.
pub proof fn lemma_eq_ignore_ascii_case_transitive(a: Seq<char>, b: Seq<char>, c: Seq<char>)
    requires
        eq_ignore_ascii_case_spec(a, b),
        eq_ignore_ascii_case_spec(b, c),
    ensures
        eq_ignore_ascii_case_spec(a, c),
{
    assert forall|i: int| 0 <= i < a.len() implies #[trigger] ascii_fold(a[i]) == ascii_fold(c[i]) by {
        assert(ascii_fold(a[i]) == ascii_fold(b[i]));
        assert(ascii_fold(b[i]) == ascii_fold(c[i]));
    }
}


/// Two characters fold to the same code point exactly when they are the same
/// character or the upper and lower case of one ASCII letter ('A'..='Z' and
/// 'a'..='z'); digits, punctuation and non-ASCII characters fold only to
/// themselves.
pub proof fn lemma_fold_agrees_iff_same_letter(x: char, y: char)
    ensures
        (ascii_fold(x) == ascii_fold(y)) <==> {
            ||| x == y
            ||| 65 <= (x as u32) <= 90 && (y as u32) == (x as u32) + 32
            ||| 65 <= (y as u32) <= 90 && (x as u32) == (y as u32) + 32
        },
{
    if ascii_fold(x) == ascii_fold(y) && x != y {
        assert((x as u32) != (y as u32));
    }
}

/// Meaning of the case-insensitive match: two strings match exactly when they
/// have the same length and, at every position, hold the same character or the
/// upper and lower case of one ASCII letter. So a ticker always matches its own
/// ASCII lower- or upper-case spelling, and tickers that differ in any
/// non-letter character (a digit, '-', '.') never match.
pub proof fn lemma_eq_ignore_ascii_case_meaning(a: Seq<char>, b: Seq<char>)
    ensures
        eq_ignore_ascii_case_spec(a, b) <==> {
            &&& a.len() == b.len()
            &&& forall|i: int|
                #![trigger a[i], b[i]]
                0 <= i < a.len() ==> {
                    ||| a[i] == b[i]
                    ||| 65 <= (a[i] as u32) <= 90 && (b[i] as u32) == (a[i] as u32) + 32
                    ||| 65 <= (b[i] as u32) <= 90 && (a[i] as u32) == (b[i] as u32) + 32
                }
        },
{
    if eq_ignore_ascii_case_spec(a, b) {
        assert forall|i: int| #![trigger a[i], b[i]] 0 <= i < a.len() implies {
            ||| a[i] == b[i]
            ||| 65 <= (a[i] as u32) <= 90 && (b[i] as u32) == (a[i] as u32) + 32
            ||| 65 <= (b[i] as u32) <= 90 && (a[i] as u32) == (b[i] as u32) + 32
        } by {
            assert(ascii_fold(a[i]) == ascii_fold(b[i]));
            lemma_fold_agrees_iff_same_letter(a[i], b[i]);
        }
    }
    if a.len() == b.len() && forall|i: int|
        #![trigger a[i], b[i]]
        0 <= i < a.len() ==> {
            ||| a[i] == b[i]
            ||| 65 <= (a[i] as u32) <= 90 && (b[i] as u32) == (a[i] as u32) + 32
            ||| 65 <= (b[i] as u32) <= 90 && (a[i] as u32) == (b[i] as u32) + 32
        } {
        assert forall|i: int| 0 <= i < a.len() implies #[trigger] ascii_fold(a[i]) == ascii_fold(
            b[i],
        ) by {
            lemma_fold_agrees_iff_same_letter(a[i], b[i]);
            assert(b[i] == b[i]);
        }
    }
}

} // verus!
