use vstd::prelude::*;
use vstd::std_specs::iter::IteratorSpec;

verus! {

/// Whether the pattern from position `i` on matches the text from position `j` on.
/// `*` stands for any run of characters, the empty one too; `?` for exactly one
/// character; every other character for itself.
pub open spec fn matches_from(pattern: Seq<char>, text: Seq<char>, i: int, j: int) -> bool
    decreases pattern.len() - i, text.len() - j,
{
    if i < 0 || j < 0 || j > text.len() {
        false
    } else if i >= pattern.len() {
        j == text.len()
    } else if pattern[i] == '*' {
        matches_from(pattern, text, i + 1, j) || (j < text.len() && matches_from(
            pattern,
            text,
            i,
            j + 1,
        ))
    } else {
        j < text.len() && (pattern[i] == '?' || pattern[i] == text[j]) && matches_from(
            pattern,
            text,
            i + 1,
            j + 1,
        )
    }
}

/// Whether the whole pattern matches the whole text.
pub open spec fn glob_matches(pattern: Seq<char>, text: Seq<char>) -> bool {
    matches_from(pattern, text, 0, 0)
}

/// The characters of a string, in order.
pub fn chars_of(s: &str) -> (v: Vec<char>)
    ensures
        v@ == s@,
{
    let mut v: Vec<char> = Vec::new();
    for c in it: s.chars()
        invariant
            it.seq() == s@,
            v@ == it.seq().take(it.index()),
    {
        v.push(c);
    }
    v
}

/// A wildcard pattern over text.
#[derive(Debug)]
pub struct Glob {
    pattern: Vec<char>,
}

impl View for Glob {
    type V = Seq<char>;

    closed spec fn view(&self) -> Seq<char> {
        self.pattern@
    }
}

impl Clone for Glob {
    fn clone(&self) -> (res: Glob)
        ensures
            res@ == self@,
    {
        Glob { pattern: self.pattern.clone() }
    }
}

impl Glob {
    /// The pattern written as `pattern`.
    pub fn new(pattern: &str) -> (g: Glob)
        ensures
            g@ == pattern@,
    {
        Glob { pattern: chars_of(pattern) }
    }

    /// Whether the pattern matches all of `text`. The work grows with the length of
    /// the pattern times that of the text.
    pub fn matches(&self, text: &str) -> (b: bool)
        ensures
            b == glob_matches(self@, text@),
    {
        let chars = chars_of(text);
        let n = chars.len();
        // `row[j]` tells whether the pattern from `i` on matches the text from `j` on.
        let mut row: Vec<bool> = Vec::new();
        let mut j: usize = 0;
        while j < n
            invariant
                j <= n,
                n == chars.len(),
                row.len() == j,
                forall|k: int| 0 <= k < j ==> !row@[k],
            decreases n - j,
        {
            row.push(false);
            j += 1;
        }
        row.push(true);
        let mut i: usize = self.pattern.len();
        while i > 0
            invariant
                i <= self.pattern.len(),
                n == chars.len(),
                chars@ == text@,
                row.len() == n + 1,
                forall|k: int|
                    0 <= k <= n ==> row@[k] == matches_from(self.pattern@, chars@, i as int, k),
            decreases i,
        {
            i -= 1;
            let c = self.pattern[i];
            let below = row;
            row = Vec::new();
            // The new row is filled from its end, and turned round afterwards.
            let mut filled: Vec<bool> = Vec::new();
            filled.push(c == '*' && below[n]);
            let mut j: usize = n;
            while j > 0
                invariant
                    j <= n,
                    n == chars.len(),
                    i < self.pattern.len(),
                    c == self.pattern@[i as int],
                    below.len() == n + 1,
                    filled.len() == n - j + 1,
                    forall|k: int|
                        0 <= k <= n ==> below@[k] == matches_from(
                            self.pattern@,
                            chars@,
                            i + 1,
                            k,
                        ),
                    forall|k: int|
                        j <= k <= n ==> filled@[n - k] == matches_from(
                            self.pattern@,
                            chars@,
                            i as int,
                            k,
                        ),
                decreases j,
            {
                j -= 1;
                proof {
                    assert(below@[j as int] == matches_from(self.pattern@, chars@, i + 1, j as int));
                    assert(below@[j + 1] == matches_from(self.pattern@, chars@, i + 1, j + 1));
                    assert(filled@[n - (j + 1)] == matches_from(
                        self.pattern@,
                        chars@,
                        i as int,
                        j + 1,
                    ));
                }
                let next = if c == '*' {
                    below[j] || filled[n - j - 1]
                } else {
                    (c == '?' || c == chars[j]) && below[j + 1]
                };
                assert(next == matches_from(self.pattern@, chars@, i as int, j as int));
                let ghost before = filled@;
                filled.push(next);
                assert forall|k: int| j <= k <= n implies filled@[n - k] == matches_from(
                    self.pattern@,
                    chars@,
                    i as int,
                    k,
                ) by {
                    if k > j {
                        assert(filled@[n - k] == before[n - k]);
                    }
                }
            }
            let mut k: usize = 0;
            while k <= n
                invariant
                    k <= n + 1,
                    filled.len() == n + 1,
                    row.len() == k,
                    forall|m: int| 0 <= m < k ==> row@[m] == filled@[n - m],
                decreases n + 1 - k,
            {
                row.push(filled[n - k]);
                k += 1;
            }
        }
        row[0]
    }

    /// Whether two patterns are written alike.
    pub fn same(&self, other: &Glob) -> (b: bool)
        ensures
            b == (self@ == other@),
    {
        if self.pattern.len() != other.pattern.len() {
            return false;
        }
        let mut k: usize = 0;
        while k < self.pattern.len()
            invariant
                self.pattern.len() == other.pattern.len(),
                k <= self.pattern.len(),
                forall|n: int| 0 <= n < k ==> self.pattern@[n] == other.pattern@[n],
            decreases self.pattern.len() - k,
        {
            if self.pattern[k] != other.pattern[k] {
                return false;
            }
            k += 1;
        }
        assert(self.pattern@ =~= other.pattern@);
        true
    }
}

} // verus!
