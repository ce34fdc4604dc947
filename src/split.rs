//! Splitting the arguments of a two-argument generic at its top-level comma.

use vstd::prelude::*;

verus! {

/// How a character changes the bracket nesting depth.
pub open spec fn depth_step(c: char) -> int {
    if c == '<' || c == '[' || c == '(' {
        1
    } else if c == '>' || c == ']' || c == ')' {
        -1
    } else {
        0
    }
}

/// The nesting depth before position `n` of `s`.
pub open spec fn depth_before(s: Seq<char>, n: int) -> int
    decreases n,
{
    if n <= 0 {
        0
    } else {
        depth_before(s, n - 1) + depth_step(s[n - 1])
    }
}

/// Every bracket of `s` is closed, and none is closed before it was opened.
pub open spec fn balanced(s: Seq<char>) -> bool {
    &&& forall|i: int| 0 <= i <= s.len() ==> #[trigger] depth_before(s, i) >= 0
    &&& depth_before(s, s.len() as int) == 0
}

/// Position `i` of `s` holds a comma outside every bracket.
pub open spec fn top_level_comma(s: Seq<char>, i: int) -> bool {
    s[i] == ',' && depth_before(s, i) == 0
}

/// How many top-level commas stand before position `n`.
pub open spec fn top_comma_count(s: Seq<char>, n: int) -> nat
    decreases n,
{
    if n <= 0 {
        0
    } else {
        top_comma_count(s, n - 1) + if top_level_comma(s, n - 1) {
            1nat
        } else {
            0nat
        }
    }
}

/// The position of the first top-level comma before position `n`, or -1.
pub open spec fn first_top_comma(s: Seq<char>, n: int) -> int
    decreases n,
{
    if n <= 0 {
        -1
    } else if first_top_comma(s, n - 1) >= 0 {
        first_top_comma(s, n - 1)
    } else if top_level_comma(s, n - 1) {
        n - 1
    } else {
        -1
    }
}

/// The two arguments of `s`: defined when `s` is balanced and exactly one
/// comma stands outside its brackets, with text on both sides of it.
pub open spec fn split_pair(s: Seq<char>) -> Option<(Seq<char>, Seq<char>)> {
    let n = s.len() as int;
    let p = first_top_comma(s, n);
    if balanced(s) && top_comma_count(s, n) == 1 && 0 < p && p < n - 1 {
        Some((s.subrange(0, p), s.subrange(p + 1, n)))
    } else {
        None
    }
}

proof fn lemma_count_grows(s: Seq<char>, m: int, n: int)
    requires
        m <= n,
    ensures
        top_comma_count(s, m) <= top_comma_count(s, n),
    decreases n - m,
{
    if m < n {
        lemma_count_grows(s, m, n - 1);
    }
}

proof fn lemma_first_in_range(s: Seq<char>, n: int)
    ensures
        first_top_comma(s, n) >= 0 ==> first_top_comma(s, n) < n && top_level_comma(
            s,
            first_top_comma(s, n),
        ),
        first_top_comma(s, n) < 0 ==> top_comma_count(s, n) == 0,
        top_comma_count(s, n) > 0 ==> first_top_comma(s, n) >= 0,
    decreases n,
{
    if n > 0 {
        lemma_first_in_range(s, n - 1);
    }
}

/// Splits `s` into its two top-level arguments, or `None` when it does not
/// hold exactly two.
pub fn split_top_level(s: &Vec<char>) -> (r: Option<(Vec<char>, Vec<char>)>)
    ensures
        match r {
            Some((a, b)) => split_pair(s@) == Some((a@, b@)),
            None => split_pair(s@) is None,
        },
{
    let n = s.len();
    let mut depth: usize = 0;
    let mut count: usize = 0;
    let mut first: usize = 0;
    let mut i: usize = 0;
    while i < n
        invariant
            n == s@.len(),
            i <= n,
            depth as int == depth_before(s@, i as int),
            depth <= i,
            count == 1 ==> first < i,
            forall|k: int| 0 <= k <= i ==> #[trigger] depth_before(s@, k) >= 0,
            count as nat == top_comma_count(s@, i as int),
            count <= 1,
            count == 1 ==> first as int == first_top_comma(s@, i as int),
            count == 0 ==> first_top_comma(s@, i as int) < 0,
        decreases n - i,
    {
        let c = s[i];
        proof {
            lemma_first_in_range(s@, i as int);
        }
        if c == '<' || c == '[' || c == '(' {
            depth = depth + 1;
        } else if c == '>' || c == ']' || c == ')' {
            if depth == 0 {
                assert(depth_before(s@, i + 1) < 0);
                return None;
            }
            depth = depth - 1;
        } else if c == ',' && depth == 0 {
            if count == 1 {
                proof {
                    lemma_count_grows(s@, i + 1, n as int);
                }
                return None;
            }
            count = 1;
            first = i;
        }
        i = i + 1;
    }
    if depth != 0 || count != 1 || first == 0 || first + 1 >= n {
        return None;
    }
    let a = crate::text::slice_chars(s, 0, first);
    let b = crate::text::slice_chars(s, first + 1, n);
    Some((a, b))
}

} // verus!
