use vstd::prelude::*;
use vstd::string::*;

verus! {

/// Compares two strings by their characters.
pub fn str_eq(left: &str, right: &str) -> (equal: bool)
    ensures
        equal == (left@ == right@),
{
    left.to_owned() == right.to_owned()
}

/// Appends one character to a string.
///
/// Wraps `String::push`; the contract claims that the string grows by exactly that character.
#[verifier::external_body]
pub fn push_char(text: &mut String, c: char)
    ensures
        final(text)@ == old(text)@.push(c),
{
    text.push(c);
}

/// A fresh string holding the characters of `text`.
pub fn owned(text: &str) -> (result: String)
    ensures
        result@ == text@,
{
    String::from_str(text)
}

/// `text` followed by `suffix`.
pub fn concat(text: String, suffix: &str) -> (result: String)
    ensures
        result@ == text@ + suffix@,
{
    text.concat(suffix)
}

/// The ASCII digit for `digit`.
pub open spec fn digit_char(digit: nat) -> char {
    (48 + digit) as char
}

/// The decimal representation of `value`, without sign or leading zeros.
pub open spec fn spec_decimal(value: nat) -> Seq<char>
    decreases value,
{
    if value < 10 {
        seq![digit_char(value)]
    } else {
        spec_decimal(value / 10).push(digit_char(value % 10))
    }
}

fn digit(value: usize) -> (c: char)
    requires
        value < 10,
    ensures
        c == digit_char(value as nat),
{
    if value == 0 { '0' }
    else if value == 1 { '1' }
    else if value == 2 { '2' }
    else if value == 3 { '3' }
    else if value == 4 { '4' }
    else if value == 5 { '5' }
    else if value == 6 { '6' }
    else if value == 7 { '7' }
    else if value == 8 { '8' }
    else { '9' }
}

/// Writes `value` in decimal at the end of `text`.
pub fn push_decimal(text: &mut String, value: usize)
    ensures
        final(text)@ == old(text)@ + spec_decimal(value as nat),
    decreases value,
{
    if value < 10 {
        push_char(text, digit(value));
    } else {
        push_decimal(text, value / 10);
        push_char(text, digit(value % 10));
    }
}

/// `first`, then the decimal form of `value`, then `last`.
pub fn message_with_number(first: &str, value: usize, last: &str) -> (message: String)
    ensures
        message@ == first@ + spec_decimal(value as nat) + last@,
{
    let mut message = owned(first);
    push_decimal(&mut message, value);
    concat(message, last)
}

/// `first`, then `middle`, then `last`.
pub fn message_with_text(first: &str, middle: &str, last: &str) -> (message: String)
    ensures
        message@ == first@ + middle@ + last@,
{
    let message = owned(first);
    let message = concat(message, middle);
    concat(message, last)
}

/// Whether `left` comes strictly before `right` when both are compared character by character
/// from position `index` on, a proper prefix coming first.
pub open spec fn text_less_from(left: Seq<char>, right: Seq<char>, index: int) -> bool
    decreases left.len() - index,
{
    if index < 0 || index >= right.len() {
        false
    } else if index >= left.len() {
        true
    } else if left[index] != right[index] {
        (left[index] as int) < (right[index] as int)
    } else {
        text_less_from(left, right, index + 1)
    }
}

/// The lexicographic order on character sequences.
pub open spec fn text_less(left: Seq<char>, right: Seq<char>) -> bool {
    text_less_from(left, right, 0)
}

/// Whether `left` sorts strictly before `right`.
pub fn text_lt(left: &str, right: &str) -> (less: bool)
    ensures
        less == text_less(left@, right@),
{
    let left_len = left.unicode_len();
    let right_len = right.unicode_len();
    let mut index: usize = 0;
    while index < left_len && index < right_len
        invariant
            left_len == left@.len(),
            right_len == right@.len(),
            index <= left_len,
            index <= right_len,
            text_less(left@, right@) == text_less_from(left@, right@, index as int),
        decreases left_len - index,
    {
        let l = left.get_char(index);
        let r = right.get_char(index);
        if l != r {
            return (l as u32) < (r as u32);
        }
        index = index + 1;
    }
    index < right_len
}


/// The order on texts is transitive.
pub proof fn lemma_text_less_transitive(a: Seq<char>, b: Seq<char>, c: Seq<char>)
    requires
        text_less(a, b),
        text_less(b, c),
    ensures
        text_less(a, c),
{
    lemma_text_less_from_transitive(a, b, c, 0);
}

proof fn lemma_text_less_from_transitive(a: Seq<char>, b: Seq<char>, c: Seq<char>, index: int)
    requires
        0 <= index,
        text_less_from(a, b, index),
        text_less_from(b, c, index),
    ensures
        text_less_from(a, c, index),
    decreases a.len() - index,
{
    if index < a.len() && index < b.len() && index < c.len() && a[index] == b[index] && b[index] == c[index] {
        lemma_text_less_from_transitive(a, b, c, index + 1);
    }
}

/// No text comes before itself.
pub proof fn lemma_text_less_irreflexive(a: Seq<char>)
    ensures
        !text_less(a, a),
{
    lemma_text_less_from_irreflexive(a, 0);
}

proof fn lemma_text_less_from_irreflexive(a: Seq<char>, index: int)
    requires
        0 <= index,
    ensures
        !text_less_from(a, a, index),
    decreases a.len() - index,
{
    if index < a.len() {
        lemma_text_less_from_irreflexive(a, index + 1);
    }
}


/// Of two different texts, one comes before the other.
pub proof fn lemma_text_less_total(a: Seq<char>, b: Seq<char>)
    ensures
        a == b || text_less(a, b) || text_less(b, a),
{
    assert(a.subrange(0, 0) =~= b.subrange(0, 0));
    lemma_text_less_from_total(a, b, 0);
}

proof fn lemma_text_less_from_total(a: Seq<char>, b: Seq<char>, index: int)
    requires
        0 <= index <= a.len(),
        index <= b.len(),
        a.subrange(0, index) == b.subrange(0, index),
    ensures
        a == b || text_less_from(a, b, index) || text_less_from(b, a, index),
    decreases a.len() - index,
{
    if index == a.len() && index == b.len() {
        assert(a =~= a.subrange(0, index));
        assert(b =~= b.subrange(0, index));
    } else if index < a.len() && index < b.len() {
        if a[index] == b[index] {
            assert(a.subrange(0, index + 1) =~= a.subrange(0, index).push(a[index]));
            assert(b.subrange(0, index + 1) =~= b.subrange(0, index).push(b[index]));
            lemma_text_less_from_total(a, b, index + 1);
        }
    }
}


proof fn lemma_digit_char_injective(a: nat, b: nat)
    requires
        a < 10,
        b < 10,
        digit_char(a) == digit_char(b),
    ensures
        a == b,
{
    assert((digit_char(a) as int) == 48 + a);
    assert((digit_char(b) as int) == 48 + b);
}

/// Different numbers have different decimal representations.
pub proof fn law_decimal_injective(a: nat, b: nat)
    requires
        spec_decimal(a) == spec_decimal(b),
    ensures
        a == b,
    decreases a,
{
    if a < 10 && b < 10 {
        assert(spec_decimal(a)[0] == digit_char(a));
        assert(spec_decimal(b)[0] == digit_char(b));
        lemma_digit_char_injective(a, b);
    } else if a < 10 {
        lemma_decimal_nonempty(b / 10);
        assert(spec_decimal(b).len() >= 2);
    } else if b < 10 {
        lemma_decimal_nonempty(a / 10);
        assert(spec_decimal(a).len() >= 2);
    } else {
        let da = spec_decimal(a);
        let db = spec_decimal(b);
        assert(da.last() == db.last());
        lemma_digit_char_injective(a % 10, b % 10);
        assert(da.drop_last() =~= spec_decimal(a / 10));
        assert(db.drop_last() =~= spec_decimal(b / 10));
        law_decimal_injective(a / 10, b / 10);
    }
}

proof fn lemma_decimal_nonempty(value: nat)
    ensures
        spec_decimal(value).len() >= 1,
    decreases value,
{
    if value >= 10 {
        lemma_decimal_nonempty(value / 10);
    }
}

} // verus!
