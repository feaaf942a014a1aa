use vstd::prelude::*;

verus! {

/// The characters of `s`, in order.
pub fn chars_of(s: &str) -> (v: Vec<char>)
    ensures
        v@ == s@,
{
    let mut v: Vec<char> = Vec::new();
    for c in it: s.chars()
        invariant
            v@ == it.seq().take(it.index() as int),
    {
        v.push(c);
    }
    assert(v@ =~= s@);
    v
}

/// Whether the characters `s[from..to]` are those of `lit`.
pub fn range_is(s: &Vec<char>, from: usize, to: usize, lit: &Vec<char>) -> (b: bool)
    requires
        from <= to <= s@.len(),
    ensures
        b == (s@.subrange(from as int, to as int) == lit@),
{
    if to - from != lit.len() {
        proof {
            assert(s@.subrange(from as int, to as int).len() != lit@.len());
        }
        return false;
    }
    let mut i: usize = 0;
    while i < lit.len()
        invariant
            from <= to <= s@.len(),
            to - from == lit@.len(),
            i <= lit@.len(),
            forall|j: int| 0 <= j < i ==> s@[from + j] == lit@[j],
        decreases lit@.len() - i,
    {
        if s[from + i] != lit[i] {
            proof {
                assert(s@.subrange(from as int, to as int)[i as int] != lit@[i as int]);
            }
            return false;
        }
        i = i + 1;
    }
    proof {
        assert(s@.subrange(from as int, to as int) =~= lit@);
    }
    true
}

/// `c` is white space as Unicode's White_Space property has it, which is
/// what `char::is_whitespace` tests.
pub open spec fn is_white_space(c: char) -> bool {
    ||| c == '\t'
    ||| c == '\n'
    ||| c == '\u{0B}'
    ||| c == '\u{0C}'
    ||| c == '\r'
    ||| c == ' '
    ||| c == '\u{85}'
    ||| c == '\u{A0}'
    ||| c == '\u{1680}'
    ||| ('\u{2000}' <= c && c <= '\u{200A}')
    ||| c == '\u{2028}'
    ||| c == '\u{2029}'
    ||| c == '\u{202F}'
    ||| c == '\u{205F}'
    ||| c == '\u{3000}'
}

/// Whether `c` is white space.
pub fn white_space(c: char) -> (b: bool)
    ensures
        b == is_white_space(c),
{
    c == '\t' || c == '\n' || c == '\u{0B}' || c == '\u{0C}' || c == '\r' || c == ' ' || c == '\u{85}'
        || c == '\u{A0}' || c == '\u{1680}' || ('\u{2000}' <= c && c <= '\u{200A}') || c == '\u{2028}'
        || c == '\u{2029}' || c == '\u{202F}' || c == '\u{205F}' || c == '\u{3000}'
}

/// The index of the first character of `s` at or after `i` that is not
/// white space, or the length of `s` when there is none.
pub open spec fn skip_space_from(s: Seq<char>, i: int) -> int
    decreases s.len() - i,
{
    if i >= s.len() || i < 0 || !is_white_space(s[i]) {
        i
    } else {
        skip_space_from(s, i + 1)
    }
}

/// The index just past the last character of `s` before `j` that is not
/// white space, going no lower than `lo`.
pub open spec fn back_space_from(s: Seq<char>, j: int, lo: int) -> int
    decreases j,
{
    if j <= lo || j <= 0 || j > s.len() || !is_white_space(s[j - 1]) {
        j
    } else {
        back_space_from(s, j - 1, lo)
    }
}

/// `s` with the white space at its start and at its end taken off.
pub open spec fn trimmed(s: Seq<char>) -> Seq<char> {
    let a = skip_space_from(s, 0);
    s.subrange(a, back_space_from(s, s.len() as int, a))
}

proof fn lemma_skip_bounds(s: Seq<char>, i: int)
    requires
        0 <= i <= s.len(),
    ensures
        i <= skip_space_from(s, i) <= s.len(),
    decreases s.len() - i,
{
    if i < s.len() && is_white_space(s[i]) {
        lemma_skip_bounds(s, i + 1);
    }
}

proof fn lemma_back_bounds(s: Seq<char>, j: int, lo: int)
    requires
        0 <= lo <= j <= s.len(),
    ensures
        lo <= back_space_from(s, j, lo) <= j,
    decreases j,
{
    if j > lo && j > 0 && is_white_space(s[j - 1]) {
        lemma_back_bounds(s, j - 1, lo);
    }
}

/// `s` without the white space at its start and at its end.
pub fn trim(s: &str) -> (r: String)
    ensures
        r@ == trimmed(s@),
{
    let cs = chars_of(s);
    let n = cs.len();
    let mut a: usize = 0;
    while a < n && white_space(cs[a])
        invariant
            cs@ == s@,
            n == cs@.len(),
            a <= n,
            skip_space_from(s@, a as int) == skip_space_from(s@, 0),
        decreases n - a,
    {
        a = a + 1;
    }
    let mut b: usize = n;
    while b > a && white_space(cs[b - 1])
        invariant
            cs@ == s@,
            n == cs@.len(),
            a <= b <= n,
            a == skip_space_from(s@, 0),
            back_space_from(s@, b as int, a as int) == back_space_from(s@, n as int, a as int),
        decreases b,
    {
        b = b - 1;
    }
    s.substring_char(a, b).to_owned()
}

} // verus!
