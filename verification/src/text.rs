use vstd::prelude::*;

verus! {

/// `String::push` appends the given character to the end of the string and
/// changes nothing else of it. It is not verified here.
pub assume_specification[ String::push ](text: &mut String, ch: char)
    ensures
        final(text)@ == old(text)@.push(ch),
;

/// The decimal digit that stands for `n`, where `n` is below ten.
pub open spec fn digit_char(n: int) -> char {
    ('0' as int + n) as char
}

/// `n` written in base 10, without leading zeros.
pub open spec fn decimal_text(n: nat) -> Seq<char>
    decreases n,
{
    if n < 10 {
        seq![digit_char(n as int)]
    } else {
        decimal_text(n / 10).push(digit_char((n % 10) as int))
    }
}

/// A string that holds the characters of `chars`, in their order.
pub fn collect_string(chars: &Vec<char>) -> (text: String)
    ensures
        text@ == chars@,
{
    let mut text = String::new();
    let mut i: usize = 0;
    while i < chars.len()
        invariant
            i <= chars@.len(),
            text@ == chars@.take(i as int),
        decreases chars@.len() - i,
    {
        text.push(chars[i]);
        assert(chars@.take(i + 1) =~= chars@.take(i as int).push(chars@[i as int]));
        i += 1;
    }
    assert(chars@.take(chars@.len() as int) =~= chars@);
    text
}

/// Whether `word` holds exactly the characters of `pattern`.
pub fn spells(word: &Vec<char>, pattern: &str) -> (same: bool)
    ensures
        same == (word@ == pattern@),
{
    let n = pattern.unicode_len();
    if word.len() != n {
        return false;
    }
    let mut i: usize = 0;
    while i < n
        invariant
            n == pattern@.len(),
            n == word@.len(),
            i <= n,
            forall|j: int| 0 <= j < i ==> word@[j] == pattern@[j],
        decreases n - i,
    {
        if word[i] != pattern.get_char(i) {
            return false;
        }
        i += 1;
    }
    assert(word@ =~= pattern@);
    true
}

/// Appends `n`, written in base 10, to `text`.
pub fn push_decimal(text: &mut String, n: usize)
    ensures
        final(text)@ == old(text)@ + decimal_text(n as nat),
    decreases n,
{
    if n >= 10 {
        push_decimal(text, n / 10);
    }
    let digit: u8 = (n % 10) as u8;
    let c: char = (48u8 + digit) as char;
    text.push(c);
    proof {
        assert(c == digit_char((n % 10) as int));
        if n < 10 {
            assert(old(text)@.push(c) =~= old(text)@ + decimal_text(n as nat));
        } else {
            assert((old(text)@ + decimal_text((n / 10) as nat)).push(c) =~= old(text)@
                + decimal_text(n as nat));
        }
    }
}

} // verus!
