//! Text helpers: ordering, searching, joining and number formatting.
use vstd::prelude::*;
use vstd::std_specs::iter::IteratorSpec;
use vstd::string::*;

verus! {

/// `String::push` appends one character and leaves what was there untouched.
pub assume_specification[ String::push ](s: &mut String, c: char)
    ensures
        final(s)@ == old(s)@.push(c),
;

/// Whether `a` comes strictly before `b` when texts are ordered by the code
/// points of their characters, the first difference deciding.
pub open spec fn text_less(a: Seq<char>, b: Seq<char>) -> bool
    decreases a.len(),
{
    if b.len() == 0 {
        false
    } else if a.len() == 0 {
        true
    } else if a[0] != b[0] {
        (a[0] as int) < (b[0] as int)
    } else {
        text_less(a.drop_first(), b.drop_first())
    }
}

/// No text comes before itself.
pub proof fn lemma_text_less_irreflexive(a: Seq<char>)
    ensures
        !text_less(a, a),
    decreases a.len(),
{
    if a.len() > 0 {
        lemma_text_less_irreflexive(a.drop_first());
    }
}

/// Of two different texts, one comes before the other.
pub proof fn lemma_text_less_total(a: Seq<char>, b: Seq<char>)
    ensures
        a == b || text_less(a, b) || text_less(b, a),
    decreases a.len(),
{
    if a.len() > 0 && b.len() > 0 && a[0] == b[0] {
        lemma_text_less_total(a.drop_first(), b.drop_first());
        if a.drop_first() == b.drop_first() {
            assert(a =~= seq![a[0]] + a.drop_first());
            assert(b =~= seq![b[0]] + b.drop_first());
        }
    } else if a.len() == 0 && b.len() == 0 {
        assert(a =~= b);
    }
}

/// The order of texts is transitive.
pub proof fn lemma_text_less_transitive(a: Seq<char>, b: Seq<char>, c: Seq<char>)
    requires
        text_less(a, b),
        text_less(b, c),
    ensures
        text_less(a, c),
    decreases a.len(),
{
    if a.len() > 0 && a[0] == b[0] && b[0] == c[0] {
        lemma_text_less_transitive(a.drop_first(), b.drop_first(), c.drop_first());
    }
}

/// Tells whether `a` comes strictly before `b`.
pub fn text_before(a: &str, b: &str) -> (r: bool)
    ensures
        r == text_less(a@, b@),
{
    let mut left = a.chars();
    let mut right = b.chars();
    loop
        invariant
            left.obeys_prophetic_iter_laws(),
            right.obeys_prophetic_iter_laws(),
            left.decrease() is Some,
            text_less(a@, b@) == text_less(left.remaining(), right.remaining()),
        decreases left.decrease()->0,
    {
        let x = left.next();
        let y = right.next();
        match (x, y) {
            (_, None) => {
                return false;
            },
            (None, Some(_)) => {
                return true;
            },
            (Some(p), Some(q)) => {
                if p != q {
                    return p < q;
                }
            },
        }
    }
}

/// The characters of a text, in order.
pub fn to_chars(s: &str) -> (r: Vec<char>)
    ensures
        r@ == s@,
{
    let mut rest = s.chars();
    let mut r: Vec<char> = Vec::new();
    loop
        invariant
            rest.obeys_prophetic_iter_laws(),
            rest.decrease() is Some,
            r@ + rest.remaining() == s@,
        decreases rest.decrease()->0,
    {
        match rest.next() {
            None => {
                assert(r@ == s@);
                return r;
            },
            Some(c) => {
                r.push(c);
            },
        }
    }
}

/// The text made of the characters of `chars` from position `from` on.
pub fn from_chars(chars: &Vec<char>, from: usize) -> (r: String)
    requires
        from <= chars.len(),
    ensures
        r@ == chars@.skip(from as int),
{
    let mut r = String::new();
    let mut i: usize = from;
    while i < chars.len()
        invariant
            from <= i <= chars.len(),
            r@ == chars@.subrange(from as int, i as int),
        decreases chars.len() - i,
    {
        r.push(chars[i]);
        i = i + 1;
    }
    r
}

/// `a` followed by `b`.
pub fn joined(a: &str, b: &str) -> (r: String)
    ensures
        r@ == a@ + b@,
{
    let mut r = a.to_owned();
    r.append(b);
    r
}

/// What is left of `s` once `prefix` is cut off its front, where `s` begins
/// with it.
pub fn without_prefix(s: &str, prefix: &str) -> (r: Option<String>)
    ensures
        r is Some <==> prefix@.is_prefix_of(s@),
        r matches Some(rest) ==> s@ == prefix@ + rest@,
{
    let chars = to_chars(s);
    let front = to_chars(prefix);
    if front.len() > chars.len() {
        return None;
    }
    let mut i: usize = 0;
    while i < front.len()
        invariant
            chars@ == s@,
            front@ == prefix@,
            front.len() <= chars.len(),
            i <= front.len(),
            front@.take(i as int) == chars@.take(i as int),
        decreases front.len() - i,
    {
        if front[i] != chars[i] {
            assert(prefix@[i as int] != s@[i as int]);
            assert(s@.subrange(0, prefix@.len() as int)[i as int] == s@[i as int]);
            return None;
        }
        assert(front@.take(i + 1) == front@.take(i as int).push(front@[i as int]));
        assert(chars@.take(i + 1) == chars@.take(i as int).push(chars@[i as int]));
        i = i + 1;
    }
    assert(front@.take(i as int) == front@);
    let rest = from_chars(&chars, front.len());
    assert(s@ == s@.take(i as int) + s@.skip(i as int));
    Some(rest)
}

/// Whether `part` occurs in `s` at position `at`.
pub open spec fn occurs_at(s: Seq<char>, part: Seq<char>, at: int) -> bool {
    &&& 0 <= at
    &&& at + part.len() <= s.len()
    &&& s.subrange(at, at + part.len()) == part
}

/// Whether `part` occurs somewhere in `s`.
pub open spec fn text_contains(s: Seq<char>, part: Seq<char>) -> bool {
    exists|at: int| occurs_at(s, part, at)
}

/// Tells whether `wanted` occurs in `chars` at position `at`.
fn matches_at(chars: &Vec<char>, wanted: &Vec<char>, at: usize) -> (r: bool)
    requires
        at + wanted.len() <= chars.len(),
    ensures
        r == occurs_at(chars@, wanted@, at as int),
{
    let mut i: usize = 0;
    while i < wanted.len()
        invariant
            at + wanted.len() <= chars.len(),
            i <= wanted.len(),
            forall|j: int| 0 <= j < i ==> chars@[at + j] == wanted@[j],
        decreases wanted.len() - i,
    {
        if chars[at + i] != wanted[i] {
            assert(chars@.subrange(at as int, at + wanted@.len())[i as int] == chars@[at + i]);
            return false;
        }
        i = i + 1;
    }
    assert(chars@.subrange(at as int, at + wanted@.len()) =~= wanted@);
    true
}

/// Tells whether `part` occurs somewhere in `s`.
pub fn has_part(s: &str, part: &str) -> (r: bool)
    ensures
        r == text_contains(s@, part@),
{
    let chars = to_chars(s);
    let wanted = to_chars(part);
    if wanted.len() > chars.len() {
        return false;
    }
    let last: usize = chars.len() - wanted.len();
    let mut at: usize = 0;
    loop
        invariant
            chars@ == s@,
            wanted@ == part@,
            last + wanted.len() == chars.len(),
            at <= last,
            forall|k: int| 0 <= k < at ==> !occurs_at(s@, part@, k),
        decreases last - at,
    {
        if matches_at(&chars, &wanted, at) {
            return true;
        }
        if at == last {
            return false;
        }
        at = at + 1;
    }
}

/// `c`, but a forward slash in place of a backslash.
pub open spec fn forward_slash(c: char) -> char {
    if c == '\\' {
        '/'
    } else {
        c
    }
}

/// A text with each backslash turned into a forward slash.
pub open spec fn slashes_replaced(s: Seq<char>) -> Seq<char> {
    s.map_values(|c: char| forward_slash(c))
}

/// Turns each backslash of `s` into a forward slash.
pub fn replace_slashes(s: &str) -> (r: String)
    ensures
        r@ == slashes_replaced(s@),
{
    let chars = to_chars(s);
    let mut r = String::new();
    let mut i: usize = 0;
    while i < chars.len()
        invariant
            chars@ == s@,
            i <= chars.len(),
            r@ == slashes_replaced(s@.take(i as int)),
        decreases chars.len() - i,
    {
        let c = chars[i];
        if c == '\\' {
            r.push('/');
        } else {
            r.push(c);
        }
        assert(s@.take(i + 1) == s@.take(i as int).push(c));
        i = i + 1;
    }
    assert(s@.take(i as int) == s@);
    r
}

/// The character that stands for the digit `d`.
pub open spec fn digit_char(d: nat) -> char {
    (48 + d) as char
}

/// A number in decimal digits, without leading zeros.
pub open spec fn decimal_text(n: nat) -> Seq<char>
    decreases n,
{
    if n < 10 {
        seq![digit_char(n)]
    } else {
        decimal_text(n / 10).push(digit_char(n % 10))
    }
}

/// Writes `n` in decimal digits.
pub fn decimal(n: u64) -> (r: String)
    ensures
        r@ == decimal_text(n as nat),
    decreases n,
{
    if n < 10 {
        let mut r = String::new();
        let digit: u8 = 48 + n as u8;
        r.push(digit as char);
        assert(r@ =~= seq![digit_char(n as nat)]);
        r
    } else {
        let mut r = decimal(n / 10);
        let digit: u8 = 48 + (n % 10) as u8;
        r.push(digit as char);
        r
    }
}

} // verus!
