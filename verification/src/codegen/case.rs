use vstd::prelude::*;

use crate::ast::{CaseBranch, LiteralPattern, Pattern};
use crate::cli::options::{digits_value, is_digit};
use crate::text::{message_with_text, owned};

use super::generic_layout::emit_error;
use super::layout::enum_layout::first_variant;
use super::layout::{LayoutRegistry, NativeType};
use super::native::NativeEmitError;

verus! {

/// The sign and the digits of an integer as `i64::from_str` reads it.
pub open spec fn signed_digits(text: Seq<char>) -> (bool, Seq<char>) {
    if text.len() > 0 && text[0] == '-' {
        (true, text.drop_first())
    } else if text.len() > 0 && text[0] == '+' {
        (false, text.drop_first())
    } else {
        (false, text)
    }
}

/// The value of `text` read as an `i64`: one or more decimal digits after an optional sign,
/// denoting a number that fits.
pub open spec fn spec_parse_i64(text: Seq<char>) -> Option<i64> {
    let (negative, digits) = signed_digits(text);
    if digits.len() == 0 || exists|i: int| 0 <= i < digits.len() && !is_digit(#[trigger] digits[i]) {
        None
    } else if negative {
        if digits_value(digits) > 0x8000_0000_0000_0000 {
            None
        } else {
            Some((0 - digits_value(digits)) as i64)
        }
    } else if digits_value(digits) > 0x7fff_ffff_ffff_ffff {
        None
    } else {
        Some(digits_value(digits) as i64)
    }
}

proof fn lemma_digits_value_grows(digits: Seq<char>, count: int)
    requires
        0 <= count <= digits.len(),
        forall|i: int| 0 <= i < digits.len() ==> is_digit(#[trigger] digits[i]),
    ensures
        digits_value(digits.take(count)) <= digits_value(digits),
    decreases digits.len() - count,
{
    if count < digits.len() {
        lemma_digits_value_grows(digits, count + 1);
        assert(digits.take(count + 1).drop_last() =~= digits.take(count));
    } else {
        assert(digits.take(count) =~= digits);
    }
}

/// Reads an `i64` written in decimal, with an optional sign, as `i64::from_str` does.
pub fn parse_i64(text: &str) -> (value: Option<i64>)
    ensures
        value == spec_parse_i64(text@),
{
    let length = text.unicode_len();
    let mut index: usize = 0;
    let mut negative = false;
    if length > 0 && text.get_char(0) == '-' {
        negative = true;
        index = 1;
    } else if length > 0 && text.get_char(0) == '+' {
        index = 1;
    }
    let ghost digits = signed_digits(text@).1;
    let start = index;
    proof {
        assert(digits =~= text@.skip(start as int));
    }
    if index >= length {
        return None;
    }
    let mut magnitude: u64 = 0;
    while index < length
        invariant
            length == text@.len(),
            start <= index <= length,
            start < length,
            digits == text@.skip(start as int),
            digits == signed_digits(text@).1,
            negative == signed_digits(text@).0,
            forall|i: int| 0 <= i < index - start ==> is_digit(#[trigger] digits[i]),
            magnitude == digits_value(digits.take(index - start)),
            magnitude <= 0x8000_0000_0000_0000,
        decreases length - index,
    {
        let c = text.get_char(index);
        proof {
            assert(digits[index - start] == c);
            assert(digits.take(index - start + 1).drop_last() =~= digits.take(index - start));
            assert(digits.take(index - start + 1).last() == c);
        }
        if c < '0' || c > '9' {
            proof {
                assert(!is_digit(digits[index - start]));
            }
            return None;
        }
        let digit = (c as u32 - 48) as u64;
        let grown = magnitude as u128 * 10 + digit as u128;
        if grown > 0x8000_0000_0000_0000u128 {
            proof {
                assert(digits_value(digits.take(index - start + 1)) == grown);
                if forall|i: int| 0 <= i < digits.len() ==> is_digit(#[trigger] digits[i]) {
                    lemma_digits_value_grows(digits, index - start + 1);
                } else {
                    let i = choose|i: int| 0 <= i < digits.len() && !is_digit(#[trigger] digits[i]);
                    assert(!is_digit(digits[i]));
                }
            }
            return None;
        }
        magnitude = grown as u64;
        index = index + 1;
    }
    proof {
        assert(digits.take(index - start) =~= digits);
    }
    if negative {
        if magnitude == 0x8000_0000_0000_0000u64 {
            Some(i64::MIN)
        } else {
            Some(0 - (magnitude as i64))
        }
    } else if magnitude > 0x7fff_ffff_ffff_ffffu64 {
        None
    } else {
        Some(magnitude as i64)
    }
}

/// How a case branch decides whether its pattern matches the subject.
#[derive(Clone, Copy, Debug, PartialEq, Eq, Structural)]
pub enum PatternTest {
    /// The pattern matches anything.
    Always,
    /// The subject equals this integer.
    Equals(i64),
    /// The 4-byte discriminant at `offset` in the subject equals `value`.
    Discriminant { offset: u32, value: u32 },
}

/// The value an integer or boolean literal pattern stands for: an integer that does not read
/// as an `i64` stands for 0, `true` for 1.
pub open spec fn literal_value(literal: LiteralPattern) -> i64 {
    match literal {
        LiteralPattern::Integer(text) => match spec_parse_i64(text@) {
            Some(value) => value,
            None => 0,
        },
        LiteralPattern::Bool(value) => if value {
            1
        } else {
            0
        },
    }
}

/// How the pattern is tested against a subject of native type `subject`.
pub open spec fn spec_pattern_test(
    pattern: Pattern,
    subject: NativeType,
    layouts: Seq<super::layout::EnumLayoutView>,
) -> Result<PatternTest, Seq<char>> {
    match pattern {
        Pattern::Wildcard { .. } => Ok(PatternTest::Always),
        Pattern::Literal { value, .. } => Ok(PatternTest::Equals(literal_value(value))),
        Pattern::Variant { enum_name, variant, .. } => match subject {
            NativeType::Enum(id) => if id >= layouts.len() {
                Err("missing enum layout for case subject"@)
            } else {
                let layout = layouts[id as int];
                let index = first_variant(layout.variants, variant@);
                if index < 0 {
                    Err("unknown case variant `"@ + enum_name@ + "."@ + variant@ + "`"@)
                } else {
                    Ok(PatternTest::Discriminant { offset: layout.discriminant_offset, value: layout.variants[index].discriminant })
                }
            },
            _ => Err("case subject is not enum `"@ + enum_name@ + "`"@),
        },
    }
}

/// Decides how a case branch tests its pattern against a subject of native type
/// `subject_type`: a wildcard always matches, a literal compares the subject with its value,
/// and a variant compares the subject's discriminant with that of the variant.
pub fn pattern_test(pattern: &Pattern, subject_type: NativeType, layouts: &LayoutRegistry) -> (result: Result<
    PatternTest,
    NativeEmitError,
>)
    requires
        layouts.wf(),
    ensures
        match result {
            Ok(test) => spec_pattern_test(*pattern, subject_type, layouts.enum_layouts()) == Ok::<PatternTest, Seq<char>>(test),
            Err(error) => spec_pattern_test(*pattern, subject_type, layouts.enum_layouts()) == Err::<PatternTest, Seq<char>>(
                error.spec_message(),
            ),
        },
{
    match pattern {
        Pattern::Wildcard { .. } => Ok(PatternTest::Always),
        Pattern::Literal { value, .. } => {
            let expected = match value {
                LiteralPattern::Integer(text) => match parse_i64(text.as_str()) {
                    Some(parsed) => parsed,
                    None => 0,
                },
                LiteralPattern::Bool(flag) => if *flag {
                    1
                } else {
                    0
                },
            };
            Ok(PatternTest::Equals(expected))
        },
        Pattern::Variant { enum_name, variant, .. } => {
            let enum_id = match subject_type {
                NativeType::Enum(id) => id,
                _ => {
                    return Err(emit_error(message_with_text("case subject is not enum `", enum_name.as_str(), "`")));
                },
            };
            let layout = match layouts.enum_layout(enum_id) {
                Some(layout) => layout,
                None => {
                    return Err(emit_error(owned("missing enum layout for case subject")));
                },
            };
            match layouts.enum_variant(enum_id, variant.as_str()) {
                Some(found) => Ok(PatternTest::Discriminant { offset: layout.discriminant_offset, value: found.discriminant }),
                None => {
                    let text = message_with_text("unknown case variant `", enum_name.as_str(), ".");
                    let text = crate::text::concat(text, variant.as_str());
                    Err(emit_error(crate::text::concat(text, "`")))
                },
            }
        },
    }
}

/// What lowering a case does at one of its branches: the test of the branch's pattern, and
/// where a miss goes. A miss at the last branch goes to the case's merge block carrying a zero
/// of the result type; a miss at any other branch goes to the test of the next branch.
#[derive(Clone, Copy, Debug, PartialEq, Eq, Structural)]
pub struct BranchPlan {
    pub test: PatternTest,
    pub miss_to_merge: bool,
}

/// The plans of the first `count` branches of a case whose subject has native type `subject`,
/// or the error of the first branch whose pattern cannot be tested.
pub open spec fn spec_case_plans(
    branches: Seq<CaseBranch>,
    subject: NativeType,
    layouts: Seq<super::layout::EnumLayoutView>,
    count: nat,
) -> Result<Seq<BranchPlan>, Seq<char>>
    decreases count,
{
    if count == 0 || count > branches.len() {
        Ok(Seq::empty())
    } else {
        match spec_case_plans(branches, subject, layouts, (count - 1) as nat) {
            Err(error) => Err(error),
            Ok(plans) => match spec_pattern_test(branches[count - 1].pattern, subject, layouts) {
                Err(error) => Err(error),
                Ok(test) => Ok(plans.push(BranchPlan { test, miss_to_merge: count == branches.len() })),
            },
        }
    }
}

proof fn lemma_case_plans_error_stable(
    branches: Seq<CaseBranch>,
    subject: NativeType,
    layouts: Seq<super::layout::EnumLayoutView>,
    count: nat,
    end: nat,
)
    requires
        count <= end <= branches.len(),
        spec_case_plans(branches, subject, layouts, count) is Err,
    ensures
        spec_case_plans(branches, subject, layouts, end) == spec_case_plans(branches, subject, layouts, count),
    decreases end - count,
{
    if end > count {
        lemma_case_plans_error_stable(branches, subject, layouts, count, (end - 1) as nat);
    }
}

/// Plans the branches of a case, in order, over a subject of native type `subject_type`: each
/// branch tests its pattern, a miss falls to the next branch's test, and a miss at the last
/// branch reaches the merge block with a zero. The first pattern that cannot be tested is the
/// error.
pub fn plan_case_branches(branches: &Vec<CaseBranch>, subject_type: NativeType, layouts: &LayoutRegistry) -> (result: Result<
    Vec<BranchPlan>,
    NativeEmitError,
>)
    requires
        layouts.wf(),
    ensures
        match result {
            Ok(plans) => spec_case_plans(branches@, subject_type, layouts.enum_layouts(), branches@.len()) == Ok::<
                Seq<BranchPlan>,
                Seq<char>,
            >(plans@),
            Err(error) => spec_case_plans(branches@, subject_type, layouts.enum_layouts(), branches@.len()) == Err::<
                Seq<BranchPlan>,
                Seq<char>,
            >(error.spec_message()),
        },
{
    let mut plans: Vec<BranchPlan> = Vec::new();
    let mut index: usize = 0;
    while index < branches.len()
        invariant
            layouts.wf(),
            index <= branches.len(),
            spec_case_plans(branches@, subject_type, layouts.enum_layouts(), index as nat) == Ok::<
                Seq<BranchPlan>,
                Seq<char>,
            >(plans@),
        decreases branches.len() - index,
    {
        let test = match pattern_test(&branches[index].pattern, subject_type, layouts) {
            Ok(test) => test,
            Err(error) => {
                proof {
                    lemma_case_plans_error_stable(
                        branches@,
                        subject_type,
                        layouts.enum_layouts(),
                        (index + 1) as nat,
                        branches@.len(),
                    );
                }
                return Err(error);
            },
        };
        plans.push(BranchPlan { test, miss_to_merge: index + 1 == branches.len() });
        index = index + 1;
    }
    Ok(plans)
}

} // verus!
