//! Small text helpers over `str` and `String`.
use vstd::prelude::*;

verus! {

/// `==` on two `str` values, which compares their characters.
#[verifier::external_body]
pub(crate) fn str_eq(a: &str, b: &str) -> (r: bool)
    ensures
        r == (a@ == b@),
{
    a == b
}

/// `String::push`, which appends one character.
#[verifier::external_body]
pub(crate) fn push_char(s: &mut String, c: char)
    ensures
        final(s)@ == old(s)@.push(c),
{
    s.push(c)
}

/// A new `String` holding the characters of `s`.
pub fn owned(s: &str) -> (r: String)
    ensures
        r@ == s@,
{
    let mut r = String::new();
    r.append(s);
    r
}

/// The characters of `s`, in order.
pub fn chars_of(s: &str) -> (r: Vec<char>)
    ensures
        r@ == s@,
{
    let mut r: Vec<char> = Vec::new();
    let n = s.unicode_len();
    let mut i: usize = 0;
    while i < n
        invariant
            n == s@.len(),
            i <= n,
            r@ == s@.subrange(0, i as int),
        decreases n - i,
    {
        let c = s.get_char(i);
        r.push(c);
        i = i + 1;
        assert(r@ =~= s@.subrange(0, i as int));
    }
    assert(r@ =~= s@);
    r
}

/// A `String` made of the characters in `v`.
pub fn string_of(v: &Vec<char>) -> (r: String)
    ensures
        r@ == v@,
{
    let mut r = String::new();
    let mut i: usize = 0;
    while i < v.len()
        invariant
            i <= v.len(),
            r@ == v@.subrange(0, i as int),
        decreases v.len() - i,
    {
        push_char(&mut r, v[i]);
        i = i + 1;
        assert(r@ =~= v@.subrange(0, i as int));
    }
    assert(r@ =~= v@);
    r
}


/// Whether `p` is a prefix of `s`.
pub open spec fn has_prefix(s: Seq<char>, p: Seq<char>) -> bool {
    p.len() <= s.len() && s.subrange(0, p.len() as int) == p
}

/// `s` without its prefix `p`, when `p` is a prefix of it (as `str::strip_prefix`).
pub fn strip_prefix(s: &str, p: &str) -> (r: Option<String>)
    ensures
        has_prefix(s@, p@) ==> (r matches Some(x) && x@ == s@.subrange(p@.len() as int, s@.len() as int)),
        !has_prefix(s@, p@) ==> r is None,
{
    let sc = chars_of(s);
    let pc = chars_of(p);
    if pc.len() > sc.len() {
        return None;
    }
    let mut i: usize = 0;
    while i < pc.len()
        invariant
            sc@ == s@,
            pc@ == p@,
            pc.len() <= sc.len(),
            i <= pc.len(),
            sc@.subrange(0, i as int) == pc@.subrange(0, i as int),
        decreases pc.len() - i,
    {
        if sc[i] != pc[i] {
            assert(sc@.subrange(0, p@.len() as int)[i as int] != p@[i as int]);
            return None;
        }
        i = i + 1;
        assert(sc@.subrange(0, i as int) =~= pc@.subrange(0, i as int));
    }
    assert(pc@.subrange(0, i as int) =~= p@);
    let mut rest: Vec<char> = Vec::new();
    let mut j: usize = pc.len();
    while j < sc.len()
        invariant
            sc@ == s@,
            pc@ == p@,
            pc.len() <= j <= sc.len(),
            rest@ == sc@.subrange(pc.len() as int, j as int),
        decreases sc.len() - j,
    {
        rest.push(sc[j]);
        j = j + 1;
        assert(rest@ =~= sc@.subrange(pc.len() as int, j as int));
    }
    Some(string_of(&rest))
}

/// The decimal digit character for `d` (0..9).
pub open spec fn digit_char(d: int) -> char {
    (48 + d) as char
}

/// The decimal text of a natural number, without leading zeros.
pub open spec fn decimal_text(n: nat) -> Seq<char>
    decreases n,
{
    if n < 10 {
        seq![digit_char(n as int)]
    } else {
        decimal_text(n / 10) + seq![digit_char((n % 10) as int)]
    }
}

/// The decimal text of `n`, as `usize`'s display form.
pub fn usize_text(n: usize) -> (r: String)
    ensures
        r@ == decimal_text(n as nat),
    decreases n,
{
    if n < 10 {
        let mut r = String::new();
        let c = (48u8 + n as u8) as char;
        push_char(&mut r, c);
        assert(r@ =~= decimal_text(n as nat));
        r
    } else {
        let mut r = usize_text(n / 10);
        let d = (n % 10) as u8;
        let c = (48u8 + d) as char;
        push_char(&mut r, c);
        assert(r@ =~= decimal_text(n as nat));
        r
    }
}

/// The code of a character with ASCII capitals taken to lower case.
pub open spec fn ascii_lower_code(c: char) -> int {
    let v = c as u32;
    if 65 <= v <= 90 {
        v + 32
    } else {
        v as int
    }
}

/// Whether two texts are equal when ASCII letters are compared without regard
/// to case.
pub open spec fn eq_ignoring_ascii_case(a: Seq<char>, b: Seq<char>) -> bool {
    &&& a.len() == b.len()
    &&& forall|i: int| 0 <= i < a.len() ==> #[trigger] ascii_lower_code(a[i]) == ascii_lower_code(b[i])
}

/// Whether `a` and `b` are equal when ASCII letters are compared without regard
/// to case (as `str::eq_ignore_ascii_case`).
pub fn eq_ignore_ascii_case(a: &str, b: &str) -> (r: bool)
    ensures
        r == eq_ignoring_ascii_case(a@, b@),
{
    let x = chars_of(a);
    let y = chars_of(b);
    if x.len() != y.len() {
        return false;
    }
    let mut i: usize = 0;
    while i < x.len()
        invariant
            x@ == a@,
            y@ == b@,
            x@.len() == y@.len(),
            i <= x@.len(),
            forall|k: int| 0 <= k < i ==> #[trigger] ascii_lower_code(x@[k]) == ascii_lower_code(y@[k]),
        decreases x.len() - i,
    {
        let cx = x[i] as u32;
        let cy = y[i] as u32;
        let lx: u32 = if 65 <= cx && cx <= 90 {
            cx + 32
        } else {
            cx
        };
        let ly: u32 = if 65 <= cy && cy <= 90 {
            cy + 32
        } else {
            cy
        };
        if lx != ly {
            assert(ascii_lower_code(x@[i as int]) != ascii_lower_code(y@[i as int]));
            return false;
        }
        i = i + 1;
    }
    true
}

} // verus!
