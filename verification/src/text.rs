//! Small helpers on strings: characters in and out, white space, case.

use vstd::prelude::*;

verus! {

/// `String::push` appends one character.
pub assume_specification[ String::push ](s: &mut String, c: char)
    ensures
        final(s)@ == old(s)@.push(c),
;

/// The characters of `s`, in order.
pub fn chars_of(s: &str) -> (v: Vec<char>)
    ensures
        v@ == s@,
{
    broadcast use vstd::string::group_string_axioms;

    let mut v: Vec<char> = Vec::new();
    for c in it: s.chars()
        invariant
            it.seq() == s@,
            v@ == s@.take(it.index()),
    {
        v.push(c);
        assert(v@ =~= s@.take(it.index() + 1));
    }
    assert(s@.take(s@.len() as int) =~= s@);
    v
}

/// The string made of the characters of `v` from `start` to `end`.
pub fn string_of(v: &Vec<char>, start: usize, end: usize) -> (s: String)
    requires
        start <= end <= v.len(),
    ensures
        s@ == v@.subrange(start as int, end as int),
{
    let mut s = String::new();
    let mut i: usize = start;
    while i < end
        invariant
            start <= i <= end <= v.len(),
            s@ == v@.subrange(start as int, i as int),
        decreases end - i,
    {
        s.push(v[i]);
        i = i + 1;
        assert(s@ =~= v@.subrange(start as int, i as int));
    }
    s
}

/// The characters that Unicode gives the property White_Space.
pub open spec fn is_space(c: char) -> bool {
    let n = c as int;
    ||| 0x09 <= n <= 0x0d
    ||| n == 0x20
    ||| n == 0x85
    ||| n == 0xa0
    ||| n == 0x1680
    ||| 0x2000 <= n <= 0x200a
    ||| n == 0x2028
    ||| n == 0x2029
    ||| n == 0x202f
    ||| n == 0x205f
    ||| n == 0x3000
}

/// Whether `c` is white space.
pub fn space(c: char) -> (r: bool)
    ensures
        r == is_space(c),
{
    let n: u32 = c as u32;
    (0x09 <= n && n <= 0x0d) || n == 0x20 || n == 0x85 || n == 0xa0 || n == 0x1680 || (0x2000 <= n
        && n <= 0x200a) || n == 0x2028 || n == 0x2029 || n == 0x202f || n == 0x205f || n
        == 0x3000
}

/// `c` with an ASCII lower-case letter turned into its upper-case form.
pub open spec fn ascii_upper(c: char) -> char {
    if 'a' <= c <= 'z' {
        (c as int - 32) as char
    } else {
        c
    }
}

/// `c` with an ASCII upper-case letter turned into its lower-case form.
pub open spec fn ascii_lower(c: char) -> char {
    if 'A' <= c <= 'Z' {
        (c as int + 32) as char
    } else {
        c
    }
}

/// The ASCII upper-case form of `c`.
pub fn to_ascii_upper(c: char) -> (r: char)
    ensures
        r == ascii_upper(c),
{
    if c >= 'a' && c <= 'z' {
        ((c as u32 - 32) as u8) as char
    } else {
        c
    }
}

/// The ASCII lower-case form of `c`.
pub fn to_ascii_lower(c: char) -> (r: char)
    ensures
        r == ascii_lower(c),
{
    if c >= 'A' && c <= 'Z' {
        ((c as u32 + 32) as u8) as char
    } else {
        c
    }
}

/// Whether the characters of `v` from `start` to `end` are those of `word`.
pub fn slice_is(v: &Vec<char>, start: usize, end: usize, word: &str) -> (r: bool)
    requires
        start <= end <= v.len(),
    ensures
        r == (v@.subrange(start as int, end as int) == word@),
{
    let w = chars_of(word);
    if w.len() != end - start {
        return false;
    }
    let mut i: usize = 0;
    while i < w.len()
        invariant
            start <= end <= v.len(),
            w.len() == end - start,
            i <= w.len(),
            w@ == word@,
            forall|k: int| 0 <= k < i ==> v@[start + k] == w@[k],
        decreases w.len() - i,
    {
        if v[start + i] != w[i] {
            proof {
                assert(v@.subrange(start as int, end as int)[i as int] != word@[i as int]);
            }
            return false;
        }
        i = i + 1;
    }
    assert(v@.subrange(start as int, end as int) =~= word@);
    true
}

/// `s` without the white space at its start.
pub open spec fn skip_spaces(s: Seq<char>) -> Seq<char>
    decreases s.len(),
{
    if s.len() > 0 && is_space(s[0]) {
        skip_spaces(s.drop_first())
    } else {
        s
    }
}

/// `s` without the white space at its end.
pub open spec fn drop_spaces(s: Seq<char>) -> Seq<char>
    decreases s.len(),
{
    if s.len() > 0 && is_space(s.last()) {
        drop_spaces(s.drop_last())
    } else {
        s
    }
}

/// `s` without the white space at its start and at its end.
pub open spec fn trimmed(s: Seq<char>) -> Seq<char> {
    drop_spaces(skip_spaces(s))
}

/// The bounds of the characters of `v` from `start` to `end` once the white
/// space at both ends is left out.
pub fn trim_range(v: &Vec<char>, start: usize, end: usize) -> (r: (usize, usize))
    requires
        start <= end <= v.len(),
    ensures
        start <= r.0 <= r.1 <= end,
        v@.subrange(r.0 as int, r.1 as int) == trimmed(v@.subrange(start as int, end as int)),
{
    let mut a: usize = start;
    while a < end && space(v[a])
        invariant
            start <= a <= end <= v.len(),
            skip_spaces(v@.subrange(a as int, end as int)) == skip_spaces(
                v@.subrange(start as int, end as int),
            ),
        decreases end - a,
    {
        proof {
            let s = v@.subrange(a as int, end as int);
            assert(s[0] == v@[a as int]);
            assert(s.drop_first() =~= v@.subrange(a + 1, end as int));
        }
        a = a + 1;
    }
    proof {
        let s = v@.subrange(a as int, end as int);
        if a < end {
            assert(s[0] == v@[a as int]);
        }
        assert(skip_spaces(s) == s);
    }
    let mut b: usize = end;
    while b > a && space(v[b - 1])
        invariant
            a <= b <= end <= v.len(),
            drop_spaces(v@.subrange(a as int, b as int)) == drop_spaces(
                v@.subrange(a as int, end as int),
            ),
        decreases b - a,
    {
        proof {
            let s = v@.subrange(a as int, b as int);
            assert(s.last() == v@[b - 1]);
            assert(s.drop_last() =~= v@.subrange(a as int, b - 1));
        }
        b = b - 1;
    }
    proof {
        let s = v@.subrange(a as int, b as int);
        if b > a {
            assert(s.last() == v@[b - 1]);
        }
        assert(drop_spaces(s) == s);
    }
    (a, b)
}

/// The place of the first `c` in `s` at or after `from`, or the length of `s`
/// where there is none.
pub open spec fn next_at(s: Seq<char>, c: char, from: int) -> int
    decreases s.len() - from,
{
    if from >= s.len() {
        s.len() as int
    } else if s[from] == c {
        from
    } else {
        next_at(s, c, from + 1)
    }
}

/// The place of the first `c` in `v` at or after `from`, or the length of `v`
/// where there is none.
pub fn find_next(v: &Vec<char>, c: char, from: usize) -> (at: usize)
    requires
        from <= v.len(),
    ensures
        at == next_at(v@, c, from as int),
        from <= at <= v.len(),
        at < v.len() ==> v@[at as int] == c,
        forall|i: int| from <= i < at ==> v@[i] != c,
{
    let mut i: usize = from;
    while i < v.len() && v[i] != c
        invariant
            from <= i <= v.len(),
            next_at(v@, c, i as int) == next_at(v@, c, from as int),
            forall|j: int| from <= j < i ==> v@[j] != c,
        decreases v.len() - i,
    {
        i = i + 1;
    }
    i
}

/// `n` written in decimal digits.
pub open spec fn decimal(n: nat) -> Seq<char>
    decreases n,
{
    if n < 10 {
        seq![('0' as int + n) as char]
    } else {
        decimal(n / 10).push(('0' as int + n % 10) as char)
    }
}

/// Appends `n` in decimal digits.
pub fn push_decimal(s: &mut String, n: usize)
    ensures
        final(s)@ == old(s)@ + decimal(n as nat),
{
    let mut digits: Vec<char> = Vec::new();
    let mut rest: usize = n;
    let ghost start = s@;
    // The digits come out from the last to the first.
    while rest >= 10
        invariant
            decimal(n as nat) == decimal(rest as nat) + Seq::new(
                digits@.len(),
                |i: int| digits@[digits@.len() - 1 - i],
            ),
        decreases rest,
    {
        let ghost low = Seq::new(digits@.len(), |i: int| digits@[digits@.len() - 1 - i]);
        let d: char = (48u8 + (rest % 10) as u8) as char;
        digits.push(d);
        proof {
            assert(decimal(rest as nat) == decimal((rest / 10) as nat).push(d));
            assert(Seq::new(digits@.len(), |i: int| digits@[digits@.len() - 1 - i]) =~= seq![d]
                + low);
            assert(decimal((rest / 10) as nat).push(d) + low =~= decimal((rest / 10) as nat) + (
            seq![d] + low));
        }
        rest = rest / 10;
    }
    let first: char = (48u8 + rest as u8) as char;
    s.push(first);
    assert(decimal(rest as nat) =~= seq![first]);
    let ghost low = Seq::new(digits@.len(), |i: int| digits@[digits@.len() - 1 - i]);
    let mut k: usize = digits.len();
    assert(s@ =~= start + decimal(rest as nat) + low.take(0));
    while k > 0
        invariant
            k <= digits.len(),
            low == Seq::new(digits@.len(), |i: int| digits@[digits@.len() - 1 - i]),
            s@ == start + decimal(rest as nat) + low.take(digits@.len() - k),
        decreases k,
    {
        k = k - 1;
        s.push(digits[k]);
        assert(s@ =~= start + decimal(rest as nat) + low.take(digits@.len() - k));
    }
    assert(low.take(digits@.len() as int) =~= low);
    assert(s@ =~= start + (decimal(rest as nat) + low));
}

/// `s` in lower case, as `str::to_lowercase` gives it.
pub uninterp spec fn lowercase(s: Seq<char>) -> Seq<char>;

/// `str::to_lowercase`: the lower-case form of `s`.
#[verifier::external_body]
pub(crate) fn to_lowercase(s: &str) -> (lower: String)
    ensures
        lower@ == lowercase(s@),
{
    s.to_lowercase()
}

/// `s` with every space turned into an underscore.
pub open spec fn underscored(s: Seq<char>) -> Seq<char> {
    Seq::new(s.len(), |i: int| if s[i] == ' ' {
        '_'
    } else {
        s[i]
    })
}

/// The name under which `s` is looked up: an underscore, then `s` in lower
/// case with its spaces turned into underscores.
pub fn slugify(s: &str) -> (slug: String)
    ensures
        slug@ == seq!['_'] + underscored(lowercase(s@)),
{
    let lower = to_lowercase(s);
    let v = chars_of(lower.as_str());
    let mut slug = String::new();
    slug.push('_');
    let mut i: usize = 0;
    while i < v.len()
        invariant
            i <= v.len(),
            slug@ == seq!['_'] + underscored(v@).take(i as int),
        decreases v.len() - i,
    {
        let c = if v[i] == ' ' {
            '_'
        } else {
            v[i]
        };
        slug.push(c);
        i = i + 1;
        assert(slug@ =~= seq!['_'] + underscored(v@).take(i as int));
    }
    assert(underscored(v@).take(v.len() as int) =~= underscored(v@));
    slug
}

/// The string with the text of `s`.
pub fn owned(s: &str) -> (o: String)
    ensures
        o@ == s@,
{
    let v = chars_of(s);
    assert(v@.subrange(0, v@.len() as int) =~= v@);
    string_of(&v, 0, v.len())
}

/// The text of `a` followed by the text of `b`.
pub fn joined(a: &str, b: &str) -> (s: String)
    ensures
        s@ == a@ + b@,
{
    let head = chars_of(a);
    let tail = chars_of(b);
    let mut s = String::new();
    let mut i: usize = 0;
    while i < head.len()
        invariant
            i <= head.len(),
            s@ == head@.take(i as int),
        decreases head.len() - i,
    {
        s.push(head[i]);
        i = i + 1;
        assert(s@ =~= head@.take(i as int));
    }
    assert(head@.take(head.len() as int) =~= head@);
    let mut j: usize = 0;
    while j < tail.len()
        invariant
            j <= tail.len(),
            s@ == head@ + tail@.take(j as int),
        decreases tail.len() - j,
    {
        s.push(tail[j]);
        j = j + 1;
        assert(s@ =~= head@ + tail@.take(j as int));
    }
    assert(tail@.take(tail.len() as int) =~= tail@);
    s
}

} // verus!
