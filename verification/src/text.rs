//! Text building blocks shared by the renderers: decimal numbers, substring
//! search, the order of names, and the character classes of identifiers.

use vstd::prelude::*;

verus! {

/// `String::push`: the character is appended at the end.
#[verifier::external_body]
pub(crate) fn push_char(text: &mut String, c: char)
    ensures
        final(text)@ == old(text)@.push(c),
{
    text.push(c)
}

/// Whether `c` is a letter or a digit in the sense of `char::is_alphanumeric`.
pub uninterp spec fn alphanumeric(c: char) -> bool;

/// Whether `c` is a letter in the sense of `char::is_alphabetic`.
pub uninterp spec fn alphabetic(c: char) -> bool;

/// `char::is_alphanumeric`: the answer depends on the character alone.
#[verifier::external_body]
pub(crate) fn is_alphanumeric(c: char) -> (yes: bool)
    ensures
        yes == alphanumeric(c),
{
    c.is_alphanumeric()
}

/// `char::is_alphabetic`: the answer depends on the character alone.
#[verifier::external_body]
pub(crate) fn is_alphabetic(c: char) -> (yes: bool)
    ensures
        yes == alphabetic(c),
{
    c.is_alphabetic()
}

/// The characters of `text`, in order.
pub fn chars_of(text: &str) -> (chars: Vec<char>)
    ensures
        chars@ == text@,
{
    let mut chars: Vec<char> = Vec::new();
    for c in it: text.chars()
        invariant
            it.seq() == text@,
            chars@ == it.seq().subrange(0, it.index() as int),
    {
        chars.push(c);
    }
    assert(chars@ == text@);
    chars
}

/// The decimal digit for `d`, which is below ten.
pub open spec fn digit(d: nat) -> char {
    ((48 + d) as u8) as char
}

/// `n` in decimal, without leading zeros.
pub open spec fn decimal(n: nat) -> Seq<char>
    decreases n,
{
    if n < 10 {
        seq![digit(n)]
    } else {
        decimal(n / 10).push(digit(n % 10))
    }
}

/// `n` in decimal, with a minus sign where it is negative.
pub open spec fn signed_decimal(n: int) -> Seq<char> {
    if n < 0 {
        seq!['-'] + decimal((-n) as nat)
    } else {
        decimal(n as nat)
    }
}

fn digit_char(d: u8) -> (c: char)
    requires
        d < 10,
    ensures
        c == digit(d as nat),
{
    (48u8 + d) as char
}

/// Appends `n` in decimal.
pub fn push_decimal(text: &mut String, n: u64)
    ensures
        final(text)@ == old(text)@ + decimal(n as nat),
    decreases n,
{
    if n >= 10 {
        push_decimal(text, n / 10);
    }
    push_char(text, digit_char((n % 10) as u8));
    assert(text@ =~= old(text)@ + decimal(n as nat));
}

/// `n` in decimal.
pub fn decimal_string(n: u64) -> (text: String)
    ensures
        text@ == decimal(n as nat),
{
    let mut text = String::new();
    push_decimal(&mut text, n);
    assert(Seq::<char>::empty() + decimal(n as nat) =~= decimal(n as nat));
    text
}

/// `n` in decimal, with its sign where it is negative.
pub fn signed_decimal_string(n: i32) -> (text: String)
    ensures
        text@ == signed_decimal(n as int),
{
    let wide: i64 = n as i64;
    let mut text = String::new();
    if wide < 0 {
        push_char(&mut text, '-');
        push_decimal(&mut text, (-wide) as u64);
        assert(text@ =~= seq!['-'] + decimal((-n) as nat));
    } else {
        push_decimal(&mut text, wide as u64);
        assert(text@ =~= decimal(n as nat));
    }
    text
}

/// `needle` stands in `haystack` at position `at`.
pub open spec fn occurs_at(haystack: Seq<char>, needle: Seq<char>, at: int) -> bool {
    &&& 0 <= at
    &&& at + needle.len() <= haystack.len()
    &&& haystack.subrange(at, at + needle.len()) == needle
}

/// `needle` stands somewhere in `haystack`.
pub open spec fn contains_text(haystack: Seq<char>, needle: Seq<char>) -> bool {
    exists|at: int| occurs_at(haystack, needle, at)
}

fn matches_at(haystack: &Vec<char>, needle: &Vec<char>, at: usize) -> (found: bool)
    requires
        at + needle.len() <= haystack.len(),
    ensures
        found == occurs_at(haystack@, needle@, at as int),
{
    let mut k: usize = 0;
    while k < needle.len()
        invariant
            k <= needle.len(),
            at + needle.len() <= haystack.len(),
            forall|j: int| 0 <= j < k ==> haystack@[at + j] == needle@[j],
        decreases needle.len() - k,
    {
        if haystack[at + k] != needle[k] {
            assert(haystack@.subrange(at as int, at + needle.len())[k as int] != needle@[k as int]);
            return false;
        }
        k += 1;
    }
    assert(haystack@.subrange(at as int, at + needle.len()) =~= needle@);
    true
}

/// Whether `needle` stands somewhere in `haystack`.
pub fn contains(haystack: &str, needle: &str) -> (found: bool)
    ensures
        found == contains_text(haystack@, needle@),
{
    let hay = chars_of(haystack);
    let pin = chars_of(needle);
    if pin.len() > hay.len() {
        assert(forall|at: int| !occurs_at(hay@, pin@, at));
        return false;
    }
    let last: usize = hay.len() - pin.len();
    let mut at: usize = 0;
    while at < last
        invariant
            at <= last,
            hay@ == haystack@,
            pin@ == needle@,
            last == hay.len() - pin.len(),
            pin.len() <= hay.len(),
            forall|j: int| 0 <= j < at ==> !occurs_at(hay@, pin@, j),
        decreases last - at,
    {
        if matches_at(&hay, &pin, at) {
            assert(occurs_at(hay@, pin@, at as int));
            return true;
        }
        at += 1;
    }
    let found = matches_at(&hay, &pin, last);
    assert(found == contains_text(hay@, pin@)) by {
        if found {
            assert(occurs_at(hay@, pin@, last as int));
        } else {
            assert(forall|j: int| !occurs_at(hay@, pin@, j));
        }
    }
    found
}

/// The order of names: by the first character in which they differ, a
/// proper prefix before the longer name.
pub open spec fn name_lt(a: Seq<char>, b: Seq<char>) -> bool
    decreases a.len(),
{
    if b.len() == 0 {
        false
    } else if a.len() == 0 {
        true
    } else if a[0] != b[0] {
        a[0] < b[0]
    } else {
        name_lt(a.drop_first(), b.drop_first())
    }
}

/// No name stands before itself.
pub proof fn lemma_name_lt_irreflexive(a: Seq<char>)
    ensures
        !name_lt(a, a),
    decreases a.len(),
{
    if a.len() > 0 {
        lemma_name_lt_irreflexive(a.drop_first());
    }
}

/// The order of names is transitive.
pub proof fn lemma_name_lt_transitive(a: Seq<char>, b: Seq<char>, c: Seq<char>)
    requires
        name_lt(a, b),
        name_lt(b, c),
    ensures
        name_lt(a, c),
    decreases a.len(),
{
    if a.len() > 0 && a[0] == b[0] && b[0] == c[0] {
        lemma_name_lt_transitive(a.drop_first(), b.drop_first(), c.drop_first());
    }
}

/// The order of names does not go both ways.
pub proof fn lemma_name_lt_asymmetric(a: Seq<char>, b: Seq<char>)
    requires
        name_lt(a, b),
    ensures
        !name_lt(b, a),
    decreases a.len(),
{
    if a.len() > 0 && b.len() > 0 && a[0] == b[0] {
        lemma_name_lt_asymmetric(a.drop_first(), b.drop_first());
    }
}

proof fn lemma_name_lt_skip(a: Seq<char>, b: Seq<char>, k: int)
    requires
        0 <= k <= a.len(),
        k <= b.len(),
        a.subrange(0, k) == b.subrange(0, k),
    ensures
        name_lt(a, b) == name_lt(a.skip(k), b.skip(k)),
    decreases k,
{
    if k == 0 {
        assert(a.skip(0) =~= a);
        assert(b.skip(0) =~= b);
    } else {
        assert(a[0] == a.subrange(0, k)[0]);
        assert(b[0] == b.subrange(0, k)[0]);
        let a1 = a.drop_first();
        let b1 = b.drop_first();
        assert(a1.subrange(0, k - 1) =~= a.subrange(0, k).drop_first());
        assert(b1.subrange(0, k - 1) =~= b.subrange(0, k).drop_first());
        lemma_name_lt_skip(a1, b1, k - 1);
        assert(a1.skip(k - 1) =~= a.skip(k));
        assert(b1.skip(k - 1) =~= b.skip(k));
    }
}

/// How two names stand to each other.
#[derive(Debug, Clone, Copy, PartialEq, Eq, Structural)]
pub enum NameOrder {
    Before,
    Same,
    After,
}

/// Compares two names, given as their characters.
pub fn order_of_names(a: &Vec<char>, b: &Vec<char>) -> (order: NameOrder)
    ensures
        order == NameOrder::Before <==> name_lt(a@, b@),
        order == NameOrder::Same <==> a@ == b@,
        order == NameOrder::After <==> name_lt(b@, a@),
{
    let mut k: usize = 0;
    while k < a.len() && k < b.len() && a[k] == b[k]
        invariant
            k <= a.len(),
            k <= b.len(),
            a@.subrange(0, k as int) == b@.subrange(0, k as int),
        decreases a.len() - k,
    {
        k += 1;
        assert(a@.subrange(0, k as int) =~= a@.subrange(0, k - 1).push(a@[k - 1]));
        assert(b@.subrange(0, k as int) =~= b@.subrange(0, k - 1).push(b@[k - 1]));
    }
    proof {
        lemma_name_lt_skip(a@, b@, k as int);
        lemma_name_lt_skip(b@, a@, k as int);
        lemma_name_lt_irreflexive(a@);
    }
    if k == a.len() && k == b.len() {
        assert(a@.subrange(0, k as int) =~= a@);
        assert(b@.subrange(0, k as int) =~= b@);
        NameOrder::Same
    } else if k == a.len() {
        assert(a@ != b@);
        NameOrder::Before
    } else if k == b.len() {
        assert(a@ != b@);
        NameOrder::After
    } else {
        assert(a@.skip(k as int)[0] == a@[k as int]);
        assert(b@.skip(k as int)[0] == b@[k as int]);
        assert(a@ != b@);
        if a[k] < b[k] {
            NameOrder::Before
        } else {
            NameOrder::After
        }
    }
}

/// Whether two texts hold the same characters.
pub fn same_text(a: &str, b: &str) -> (same: bool)
    ensures
        same == (a@ == b@),
{
    let left = chars_of(a);
    let right = chars_of(b);
    match order_of_names(&left, &right) {
        NameOrder::Same => true,
        _ => false,
    }
}

/// What stands behind `prefix` in `text`, where `text` begins with it.
pub open spec fn spec_strip_prefix(text: Seq<char>, prefix: Seq<char>) -> Option<Seq<char>> {
    if prefix.len() <= text.len() && text.subrange(0, prefix.len() as int) == prefix {
        Some(text.subrange(prefix.len() as int, text.len() as int))
    } else {
        None
    }
}

/// What stands behind `prefix` in `text`, where `text` begins with it.
pub fn strip_text_prefix(text: &str, prefix: &str) -> (rest: Option<String>)
    ensures
        match rest {
            Some(rest) => spec_strip_prefix(text@, prefix@) == Some(rest@),
            None => spec_strip_prefix(text@, prefix@) is None,
        },
{
    let all = chars_of(text);
    let head = chars_of(prefix);
    if head.len() > all.len() {
        return None;
    }
    let mut i: usize = 0;
    while i < head.len()
        invariant
            i <= head.len(),
            head.len() <= all.len(),
            all@ == text@,
            head@ == prefix@,
            forall|j: int| 0 <= j < i ==> all@[j] == head@[j],
        decreases head.len() - i,
    {
        if all[i] != head[i] {
            assert(all@.subrange(0, head@.len() as int)[i as int] != head@[i as int]);
            return None;
        }
        i += 1;
    }
    assert(all@.subrange(0, head@.len() as int) =~= head@);
    let mut rest = String::new();
    let mut k: usize = head.len();
    while k < all.len()
        invariant
            head.len() <= k <= all.len(),
            rest@ == all@.subrange(head@.len() as int, k as int),
        decreases all.len() - k,
    {
        push_char(&mut rest, all[k]);
        k += 1;
        assert(rest@ =~= all@.subrange(head@.len() as int, k as int));
    }
    Some(rest)
}

/// `c` is a decimal digit.
pub open spec fn is_digit(c: char) -> bool {
    '0' <= c <= '9'
}

/// `text` is one decimal digit or more.
pub open spec fn is_digits(text: Seq<char>) -> bool {
    text.len() > 0 && forall|i: int| 0 <= i < text.len() ==> is_digit(#[trigger] text[i])
}

/// The number that a sequence of decimal digits stands for.
pub open spec fn decimal_value(digits: Seq<char>) -> nat
    decreases digits.len(),
{
    if digits.len() == 0 {
        0
    } else {
        (decimal_value(digits.drop_last()) * 10 + (digits.last() as nat - 48)) as nat
    }
}

/// A number in decimal stands for that number.
pub proof fn lemma_decimal_value(n: nat)
    ensures
        decimal_value(decimal(n)) == n,
    decreases n,
{
    if n < 10 {
        assert(decimal(n).drop_last() =~= Seq::<char>::empty());
        assert(decimal_value(decimal(n).drop_last()) == 0);
    } else {
        lemma_decimal_value(n / 10);
        assert(decimal(n).drop_last() =~= decimal(n / 10));
    }
}

/// Two numbers with the same decimal text are the same.
pub proof fn lemma_decimal_injective(a: nat, b: nat)
    requires
        decimal(a) == decimal(b),
    ensures
        a == b,
{
    lemma_decimal_value(a);
    lemma_decimal_value(b);
}

} // verus!
