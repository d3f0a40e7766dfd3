use vstd::prelude::*;

use crate::text::{concat, owned, push_char};

verus! {

/// The delimiter or separator that a fuzzing byte stands for.
pub open spec fn delimiter_for(byte: u8) -> char {
    let selector = byte % 8;
    if selector == 0 {
        '{'
    } else if selector == 1 {
        '}'
    } else if selector == 2 {
        '('
    } else if selector == 3 {
        ')'
    } else if selector == 4 {
        ';'
    } else if selector == 5 {
        ','
    } else if selector == 6 {
        ':'
    } else {
        ' '
    }
}

/// Source text made of delimiters only, one character per input byte, for fuzzing how the
/// parser recovers from unbalanced brackets.
pub fn delimiter_input(input: &[u8]) -> (source: String)
    ensures
        source@ == input@.map_values(|byte: u8| delimiter_for(byte)),
{
    let mut source = String::new();
    let mut index: usize = 0;
    while index < input.len()
        invariant
            index <= input@.len(),
            source@ == input@.take(index as int).map_values(|byte: u8| delimiter_for(byte)),
        decreases input@.len() - index,
    {
        let c = match input[index] % 8 {
            0 => '{',
            1 => '}',
            2 => '(',
            3 => ')',
            4 => ';',
            5 => ',',
            6 => ':',
            _ => ' ',
        };
        push_char(&mut source, c);
        proof {
            assert(input@.take(index + 1).map_values(|byte: u8| delimiter_for(byte)) =~= input@.take(
                index as int,
            ).map_values(|byte: u8| delimiter_for(byte)).push(delimiter_for(input@[index as int])));
        }
        index = index + 1;
    }
    proof {
        assert(input@.take(index as int) =~= input@);
    }
    source
}

/// The text that `String::from_utf8_lossy` reads from `bytes`: each invalid sequence becomes
/// a replacement character.
pub uninterp spec fn lossy_text(bytes: Seq<u8>) -> Seq<char>;

/// Wraps `String::from_utf8_lossy`; the contract only names its result.
#[verifier::external_body]
fn from_utf8_lossy(bytes: &[u8]) -> (text: String)
    ensures
        text@ == lossy_text(bytes@),
{
    String::from_utf8_lossy(bytes).into_owned()
}

pub open spec fn spec_literal_input(content: Seq<char>) -> Seq<char> {
    "verb main() { // "@ + content + seq!['\n'] + " return \""@ + content + "\"; }"@
}

/// A program whose comment and string literal both hold the input bytes read as text, for
/// fuzzing how comments and string literals are scanned.
pub fn literal_input(input: &[u8]) -> (source: String)
    ensures
        source@ == spec_literal_input(lossy_text(input@)),
{
    let content = from_utf8_lossy(input);
    let mut source = concat(owned("verb main() { // "), content.as_str());
    push_char(&mut source, '\n');
    source = concat(source, " return \"");
    source = concat(source, content.as_str());
    source = concat(source, "\"; }");
    proof {
        assert(source@ =~= spec_literal_input(lossy_text(input@)));
    }
    source
}

} // verus!
