//! Character-sequence helpers shared by the classifier and the registry:
//! whitespace trimming, first-occurrence search, keyword matching on
//! lower-cased text, and hexadecimal rendering of job identifiers.

use vstd::prelude::*;

verus! {

/// Whitespace as the parser understands it.
pub open spec fn is_space(c: char) -> bool {
    c == ' ' || c == '\t' || c == '\r' || c == '\n'
}

/// `s` with leading whitespace removed.
pub open spec fn trim_front(s: Seq<char>) -> Seq<char>
    decreases s.len(),
{
    if s.len() == 0 {
        s
    } else if is_space(s.first()) {
        trim_front(s.drop_first())
    } else {
        s
    }
}

/// `s` with trailing whitespace removed.
pub open spec fn trim_back(s: Seq<char>) -> Seq<char>
    decreases s.len(),
{
    if s.len() == 0 {
        s
    } else if is_space(s.last()) {
        trim_back(s.drop_last())
    } else {
        s
    }
}

/// `s` with whitespace removed from both ends.
pub open spec fn trim(s: Seq<char>) -> Seq<char> {
    trim_back(trim_front(s))
}

/// Index of the first occurrence of `c` in `s`, or `s.len()` if absent.
pub open spec fn find_char(s: Seq<char>, c: char) -> int
    decreases s.len(),
{
    if s.len() == 0 {
        0
    } else if s.first() == c {
        0
    } else {
        1 + find_char(s.drop_first(), c)
    }
}

/// Index of the first whitespace character in `s`, or `s.len()` if absent.
pub open spec fn find_space(s: Seq<char>) -> int
    decreases s.len(),
{
    if s.len() == 0 {
        0
    } else if is_space(s.first()) {
        0
    } else {
        1 + find_space(s.drop_first())
    }
}

pub proof fn lemma_find_char_bounds(s: Seq<char>, c: char)
    ensures
        0 <= find_char(s, c) <= s.len(),
        find_char(s, c) < s.len() ==> s[find_char(s, c)] == c,
        forall|k: int| 0 <= k < find_char(s, c) ==> s[k] != c,
    decreases s.len(),
{
    if s.len() > 0 && s.first() != c {
        lemma_find_char_bounds(s.drop_first(), c);
        assert forall|k: int| 0 <= k < find_char(s, c) implies s[k] != c by {
            if k > 0 {
                assert(s.drop_first()[k - 1] != c);
            }
        }
    }
}

/// Any index with the first-occurrence property is `find_char`.
pub proof fn lemma_find_char_unique(s: Seq<char>, c: char, x: int)
    requires
        0 <= x <= s.len(),
        x < s.len() ==> s[x] == c,
        forall|k: int| 0 <= k < x ==> s[k] != c,
    ensures
        x == find_char(s, c),
{
    lemma_find_char_bounds(s, c);
    let f = find_char(s, c);
    if x < f {
        assert(s[x] != c);
        assert(x < s.len());
    } else if f < x {
        assert(f < s.len());
        assert(s[f] == c);
        assert(s[f] != c);
    }
}

pub proof fn lemma_find_space_bounds(s: Seq<char>)
    ensures
        0 <= find_space(s) <= s.len(),
        find_space(s) < s.len() ==> is_space(s[find_space(s)]),
        forall|k: int| 0 <= k < find_space(s) ==> !is_space(s[k]),
    decreases s.len(),
{
    if s.len() > 0 && !is_space(s.first()) {
        lemma_find_space_bounds(s.drop_first());
        assert forall|k: int| 0 <= k < find_space(s) implies !is_space(s[k]) by {
            if k > 0 {
                assert(!is_space(s.drop_first()[k - 1]));
            }
        }
    }
}

/// Any index with the first-whitespace property is `find_space`.
pub proof fn lemma_find_space_unique(s: Seq<char>, x: int)
    requires
        0 <= x <= s.len(),
        x < s.len() ==> is_space(s[x]),
        forall|k: int| 0 <= k < x ==> !is_space(s[k]),
    ensures
        x == find_space(s),
{
    lemma_find_space_bounds(s);
    let f = find_space(s);
    if x < f {
        assert(!is_space(s[x]));
        assert(x < s.len());
    } else if f < x {
        assert(f < s.len());
        assert(is_space(s[f]));
        assert(!is_space(s[f]));
    }
}

/// If everything before `a` is whitespace and `a` is not (or is the end),
/// trimming the front yields the tail from `a`.
pub proof fn lemma_trim_front_at(s: Seq<char>, a: int)
    requires
        0 <= a <= s.len(),
        forall|k: int| 0 <= k < a ==> is_space(s[k]),
        a < s.len() ==> !is_space(s[a]),
    ensures
        trim_front(s) == s.subrange(a, s.len() as int),
    decreases s.len(),
{
    if s.len() == 0 {
        assert(trim_front(s) =~= s.subrange(a, s.len() as int));
    } else if a == 0 {
        assert(trim_front(s) =~= s.subrange(0, s.len() as int));
    } else {
        assert(is_space(s.first()));
        assert(forall|k: int| 0 <= k < a - 1 ==> is_space(#[trigger] s.drop_first()[k]));
        lemma_trim_front_at(s.drop_first(), a - 1);
        assert(s.drop_first().subrange(a - 1, s.drop_first().len() as int) =~= s.subrange(
            a,
            s.len() as int,
        ));
    }
}

/// If everything from `b` on is whitespace and `b - 1` is not (or `b` is 0),
/// trimming the back yields the head up to `b`.
pub proof fn lemma_trim_back_at(s: Seq<char>, b: int)
    requires
        0 <= b <= s.len(),
        forall|k: int| b <= k < s.len() ==> is_space(s[k]),
        b > 0 ==> !is_space(s[b - 1]),
    ensures
        trim_back(s) == s.subrange(0, b),
    decreases s.len(),
{
    if s.len() == 0 {
        assert(trim_back(s) =~= s.subrange(0, b));
    } else if b == s.len() {
        assert(!is_space(s.last()));
        assert(trim_back(s) =~= s.subrange(0, b));
    } else {
        assert(is_space(s.last()));
        assert(forall|k: int| b <= k < s.drop_last().len() ==> is_space(
            #[trigger] s.drop_last()[k],
        ));
        lemma_trim_back_at(s.drop_last(), b);
        assert(s.drop_last().subrange(0, b) =~= s.subrange(0, b));
    }
}

/// First index in `[from, to)` holding `c`, or `to` if there is none.
pub fn index_of_char(s: &str, from: usize, to: usize, c: char) -> (r: usize)
    requires
        from <= to <= s@.len(),
    ensures
        from <= r <= to,
        r < to ==> s@[r as int] == c,
        forall|k: int| from <= k < r ==> s@[k] != c,
{
    let mut i = from;
    while i < to
        invariant
            from <= i <= to <= s@.len(),
            forall|k: int| from <= k < i ==> s@[k] != c,
        decreases to - i,
    {
        if s.get_char(i) == c {
            return i;
        }
        i += 1;
    }
    to
}

/// First index in `[from, to)` holding whitespace, or `to` if there is none.
pub fn index_of_space(s: &str, from: usize, to: usize) -> (r: usize)
    requires
        from <= to <= s@.len(),
    ensures
        from <= r <= to,
        r < to ==> is_space(s@[r as int]),
        forall|k: int| from <= k < r ==> !is_space(s@[k]),
{
    let mut i = from;
    while i < to
        invariant
            from <= i <= to <= s@.len(),
            forall|k: int| from <= k < i ==> !is_space(s@[k]),
        decreases to - i,
    {
        let ch = s.get_char(i);
        if ch == ' ' || ch == '\t' || ch == '\r' || ch == '\n' {
            return i;
        }
        i += 1;
    }
    to
}

/// First index in `[from, to)` holding non-whitespace, or `to`.
pub fn skip_spaces(s: &str, from: usize, to: usize) -> (r: usize)
    requires
        from <= to <= s@.len(),
    ensures
        from <= r <= to,
        r < to ==> !is_space(s@[r as int]),
        forall|k: int| from <= k < r ==> is_space(s@[k]),
{
    let mut i = from;
    while i < to
        invariant
            from <= i <= to <= s@.len(),
            forall|k: int| from <= k < i ==> is_space(s@[k]),
        decreases to - i,
    {
        let ch = s.get_char(i);
        if !(ch == ' ' || ch == '\t' || ch == '\r' || ch == '\n') {
            return i;
        }
        i += 1;
    }
    to
}

/// One past the last non-whitespace index in `[from, to)`, or `from`.
pub fn rskip_spaces(s: &str, from: usize, to: usize) -> (r: usize)
    requires
        from <= to <= s@.len(),
    ensures
        from <= r <= to,
        r > from ==> !is_space(s@[r - 1]),
        forall|k: int| r <= k < to ==> is_space(s@[k]),
{
    let mut i = to;
    while i > from
        invariant
            from <= i <= to <= s@.len(),
            forall|k: int| i <= k < to ==> is_space(s@[k]),
        decreases i - from,
    {
        let ch = s.get_char(i - 1);
        if !(ch == ' ' || ch == '\t' || ch == '\r' || ch == '\n') {
            return i;
        }
        i -= 1;
    }
    from
}

/// The characters of `s@` between `from` and `to`, as an owned string.
pub fn substring(s: &str, from: usize, to: usize) -> (r: String)
    requires
        from <= to <= s@.len(),
    ensures
        r@ == s@.subrange(from as int, to as int),
{
    s.substring_char(from, to).to_owned()
}

/// ASCII lower-casing of one character; everything outside `A`-`Z` is kept.
pub open spec fn lower_char(c: char) -> char {
    match c {
        'A' => 'a',
        'B' => 'b',
        'C' => 'c',
        'D' => 'd',
        'E' => 'e',
        'F' => 'f',
        'G' => 'g',
        'H' => 'h',
        'I' => 'i',
        'J' => 'j',
        'K' => 'k',
        'L' => 'l',
        'M' => 'm',
        'N' => 'n',
        'O' => 'o',
        'P' => 'p',
        'Q' => 'q',
        'R' => 'r',
        'S' => 's',
        'T' => 't',
        'U' => 'u',
        'V' => 'v',
        'W' => 'w',
        'X' => 'x',
        'Y' => 'y',
        'Z' => 'z',
        _ => c,
    }
}

/// ASCII lower-casing of a whole sequence.
pub open spec fn lower(s: Seq<char>) -> Seq<char> {
    Seq::new(s.len(), |i: int| lower_char(s[i]))
}

/// Runtime counterpart of `lower_char`.
pub fn to_lower_char(c: char) -> (r: char)
    ensures
        r == lower_char(c),
{
    match c {
        'A' => 'a',
        'B' => 'b',
        'C' => 'c',
        'D' => 'd',
        'E' => 'e',
        'F' => 'f',
        'G' => 'g',
        'H' => 'h',
        'I' => 'i',
        'J' => 'j',
        'K' => 'k',
        'L' => 'l',
        'M' => 'm',
        'N' => 'n',
        'O' => 'o',
        'P' => 'p',
        'Q' => 'q',
        'R' => 'r',
        'S' => 's',
        'T' => 't',
        'U' => 'u',
        'V' => 'v',
        'W' => 'w',
        'X' => 'x',
        'Y' => 'y',
        'Z' => 'z',
        _ => c,
    }
}

/// `needle` occurs contiguously in `hay`.
pub open spec fn contains_seq(hay: Seq<char>, needle: Seq<char>) -> bool {
    exists|i: int|
        0 <= i && i + needle.len() <= hay.len() && #[trigger] hay.subrange(i, i + needle.len())
            == needle
}

/// Whether the lower-cased text of `s` contains `pat` (given lower-case).
pub fn contains_lower(s: &str, pat: &str) -> (r: bool)
    ensures
        r == contains_seq(lower(s@), pat@),
{
    let n = s.unicode_len();
    let m = pat.unicode_len();
    if m > n {
        assert(!contains_seq(lower(s@), pat@));
        return false;
    }
    if m == 0 {
        proof {
            assert(lower(s@).subrange(0, 0 + pat@.len() as int) =~= pat@);
        }
        return true;
    }
    let mut i: usize = 0;
    while i <= n - m
        invariant
            0 < m <= n,
            i <= n - m + 1,
            n == s@.len(),
            m == pat@.len(),
            forall|ii: int|
                0 <= ii < i ==> #[trigger] lower(s@).subrange(ii, ii + pat@.len()) != pat@,
        decreases n - i,
    {
        let mut j: usize = 0;
        let mut matched = true;
        while j < m && matched
            invariant
                j <= m,
                0 < m,
                i <= n - m,
                n == s@.len(),
                m == pat@.len(),
                matched ==> forall|k: int| 0 <= k < j ==> lower(s@)[i + k] == pat@[k],
                !matched ==> lower(s@).subrange(i as int, i + pat@.len()) != pat@,
            decreases m - j + (if matched { 1int } else { 0int }),
        {
            if to_lower_char(s.get_char(i + j)) != pat.get_char(j) {
                matched = false;
                proof {
                    assert(lower(s@)[i + j] != pat@[j as int]);
                    assert(lower(s@).subrange(i as int, i + pat@.len())[j as int]
                        != pat@[j as int]);
                }
            } else {
                j += 1;
            }
        }
        if matched {
            proof {
                assert forall|t: int| 0 <= t < pat@.len() implies lower(s@).subrange(
                    i as int,
                    i + pat@.len(),
                )[t] == pat@[t] by {
                    assert(lower(s@)[i + t] == pat@[t]);
                }
                assert(lower(s@).subrange(i as int, i + pat@.len()) =~= pat@);
            }
            return true;
        }
        i += 1;
    }
    proof {
        assert forall|ii: int| 0 <= ii && ii + pat@.len() <= lower(s@).len() implies #[trigger]
        lower(s@).subrange(ii, ii + pat@.len()) != pat@ by {
            assert(ii < i);
        }
    }
    false
}

/// Hexadecimal digit character for a value below 16.
pub open spec fn hex_char(d: int) -> char {
    if d == 0 {
        '0'
    } else if d == 1 {
        '1'
    } else if d == 2 {
        '2'
    } else if d == 3 {
        '3'
    } else if d == 4 {
        '4'
    } else if d == 5 {
        '5'
    } else if d == 6 {
        '6'
    } else if d == 7 {
        '7'
    } else if d == 8 {
        '8'
    } else if d == 9 {
        '9'
    } else if d == 10 {
        'a'
    } else if d == 11 {
        'b'
    } else if d == 12 {
        'c'
    } else if d == 13 {
        'd'
    } else if d == 14 {
        'e'
    } else {
        'f'
    }
}

/// Base-16 digits of `v`, least significant first, `n` of them.
pub open spec fn nibbles(v: int, n: nat) -> Seq<int>
    decreases n,
{
    if n == 0 {
        Seq::empty()
    } else {
        seq![v % 16] + nibbles(v / 16, (n - 1) as nat)
    }
}

/// `v` after `k` of its low digits have been shed.
pub open spec fn shed(v: int, k: nat) -> int
    decreases k,
{
    if k == 0 {
        v
    } else {
        shed(v / 16, (k - 1) as nat)
    }
}

pub proof fn lemma_shed_step(v: int, k: nat)
    ensures
        shed(v, k) / 16 == shed(v, (k + 1) as nat),
    decreases k,
{
    assert(shed(v, (k + 1) as nat) == shed(v / 16, k));
    if k == 0 {
        assert(shed(v, 0) == v);
        assert(shed(v / 16, 0) == v / 16);
    } else {
        lemma_shed_step(v / 16, (k - 1) as nat);
        assert(shed(v, k) == shed(v / 16, (k - 1) as nat));
    }
}

pub proof fn lemma_nibbles_len(v: int, n: nat)
    ensures
        nibbles(v, n).len() == n,
    decreases n,
{
    if n > 0 {
        lemma_nibbles_len(v / 16, (n - 1) as nat);
    }
}

pub proof fn lemma_nibble_is_shed(v: int, n: nat, k: int)
    requires
        0 <= k < n,
    ensures
        nibbles(v, n)[k] == shed(v, k as nat) % 16,
    decreases n,
{
    lemma_nibbles_len(v, n);
    lemma_nibbles_len(v / 16, (n - 1) as nat);
    if k == 0 {
        assert(nibbles(v, n)[0] == (seq![v % 16] + nibbles(v / 16, (n - 1) as nat))[0]);
        assert(shed(v, 0) == v);
    } else {
        lemma_nibble_is_shed(v / 16, (n - 1) as nat, k - 1);
        assert(nibbles(v, n)[k] == nibbles(v / 16, (n - 1) as nat)[k - 1]);
        assert(shed(v, k as nat) == shed(v / 16, (k - 1) as nat));
    }
}

/// The 32 hexadecimal digits of a job identifier, most significant first.
pub open spec fn job_id_text(id: u128) -> Seq<char> {
    Seq::new(32, |i: int| hex_char(nibbles(id as int, 32)[31 - i]))
}

/// One-character string for a hexadecimal digit.
pub fn hex_digit_str(d: u8) -> (r: &'static str)
    requires
        d < 16,
    ensures
        r@ == seq![hex_char(d as int)],
{
    proof {
        reveal_strlit("0");
        reveal_strlit("1");
        reveal_strlit("2");
        reveal_strlit("3");
        reveal_strlit("4");
        reveal_strlit("5");
        reveal_strlit("6");
        reveal_strlit("7");
        reveal_strlit("8");
        reveal_strlit("9");
        reveal_strlit("a");
        reveal_strlit("b");
        reveal_strlit("c");
        reveal_strlit("d");
        reveal_strlit("e");
        reveal_strlit("f");
    }
    let r = match d {
        0 => "0",
        1 => "1",
        2 => "2",
        3 => "3",
        4 => "4",
        5 => "5",
        6 => "6",
        7 => "7",
        8 => "8",
        9 => "9",
        10 => "a",
        11 => "b",
        12 => "c",
        13 => "d",
        14 => "e",
        _ => "f",
    };
    proof {
        assert(r@ =~= seq![hex_char(d as int)]);
    }
    r
}

/// Render a job identifier as its 32-digit hexadecimal text.
pub fn format_job_id(id: u128) -> (r: String)
    ensures
        r@ == job_id_text(id),
{
    let mut digs: Vec<&'static str> = Vec::new();
    let mut w: u128 = id;
    let mut k: usize = 0;
    while k < 32
        invariant
            k <= 32,
            digs@.len() == k,
            w as int == shed(id as int, k as nat),
            forall|t: int|
                0 <= t < k ==> (#[trigger] digs@[t])@ == seq![
                    hex_char(nibbles(id as int, 32)[t]),
                ],
        decreases 32 - k,
    {
        let d: u8 = (w % 16) as u8;
        proof {
            lemma_nibble_is_shed(id as int, 32, k as int);
            assert(w % 16 < 16);
            assert(d as int == shed(id as int, k as nat) % 16);
        }
        digs.push(hex_digit_str(d));
        proof {
            lemma_shed_step(id as int, k as nat);
        }
        w = w / 16;
        k += 1;
    }
    let mut out = String::new();
    let mut j: usize = 32;
    while j > 0
        invariant
            j <= 32,
            digs@.len() == 32,
            forall|t: int|
                0 <= t < 32 ==> (#[trigger] digs@[t])@ == seq![
                    hex_char(nibbles(id as int, 32)[t]),
                ],
            out@ == job_id_text(id).subrange(0, 32 - j),
        decreases j,
    {
        j -= 1;
        out.append(digs[j]);
        proof {
            assert(job_id_text(id)[31 - j] == hex_char(nibbles(id as int, 32)[j as int]));
            assert(out@ =~= job_id_text(id).subrange(0, 32 - j));
        }
    }
    proof {
        assert(out@ =~= job_id_text(id));
    }
    out
}

} // verus!
