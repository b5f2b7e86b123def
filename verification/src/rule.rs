//! Rule descriptors of the form `survive-digits/born-digits`, such as `23/3`.

use vstd::prelude::*;

verus! {

/// Why a rule descriptor was turned down.
#[derive(Debug, Clone, Copy, PartialEq, Eq)]
pub enum RuleError {
    /// A character is neither a decimal digit nor the one separating slash.
    NotADigit,
    /// The digit 9 was given: a cell has no more than eight neighbors.
    TooManyNeighbors,
}

/// The value of a decimal digit.
pub open spec fn digit_value(c: char) -> Option<int> {
    if '0' <= c <= '9' {
        Some(c as int - '0' as int)
    } else {
        None
    }
}

/// Whether the character names a neighbor count, a digit from 0 to 8.
pub open spec fn is_count(c: char) -> bool {
    '0' <= c <= '8'
}

/// No slash stands before position `upto`.
pub open spec fn before_slash(text: Seq<char>, upto: int) -> bool {
    forall|j: int| 0 <= j < upto ==> text[j] != '/'
}

/// Position `i` holds the separator: the first slash of the text.
pub open spec fn is_separator(text: Seq<char>, i: int) -> bool {
    before_slash(text, i) && text[i] == '/'
}

/// Position `i` holds a character that the grammar does not allow there.
pub open spec fn fault_at(text: Seq<char>, i: int) -> bool {
    0 <= i < text.len() && !is_count(text[i]) && !is_separator(text, i)
}

/// No position before `upto` holds a fault.
pub open spec fn valid_upto(text: Seq<char>, upto: int) -> bool {
    forall|j: int| 0 <= j < upto ==> !fault_at(text, j)
}

/// The text is digits from 0 to 8 with at most one slash among them.
pub open spec fn rule_text_valid(text: Seq<char>) -> bool {
    valid_upto(text, text.len() as int)
}

/// Position `i` holds the first fault of the text.
pub open spec fn first_fault(text: Seq<char>, i: int) -> bool {
    fault_at(text, i) && valid_upto(text, i)
}

/// The error that a faulty character stands for.
pub open spec fn fault_kind(c: char) -> RuleError {
    if digit_value(c) is Some {
        RuleError::TooManyNeighbors
    } else {
        RuleError::NotADigit
    }
}

/// The count `n` is named before the separator, at a position below `upto`.
pub open spec fn survive_upto(text: Seq<char>, n: int, upto: int) -> bool {
    exists|j: int|
        0 <= j < upto && before_slash(text, j) && #[trigger] digit_value(text[j]) == Some(n)
}

/// The count `n` is named after the separator, at a position below `upto`.
pub open spec fn born_upto(text: Seq<char>, n: int, upto: int) -> bool {
    exists|j: int|
        0 <= j < upto && !before_slash(text, j) && #[trigger] digit_value(text[j]) == Some(n)
}

/// The survive table of a descriptor: entry `n` holds where the digit `n`
/// stands before the separator.
pub open spec fn survive_table(text: Seq<char>) -> Seq<bool> {
    Seq::new(9, |n: int| survive_upto(text, n, text.len() as int))
}

/// The born table of a descriptor: entry `n` holds where the digit `n` stands
/// after the separator.
pub open spec fn born_table(text: Seq<char>) -> Seq<bool> {
    Seq::new(9, |n: int| born_upto(text, n, text.len() as int))
}

/// What a descriptor means: its two tables, or the error that its first fault
/// stands for.
pub open spec fn rule_of(text: Seq<char>) -> Result<(Seq<bool>, Seq<bool>), RuleError> {
    if rule_text_valid(text) {
        Ok((survive_table(text), born_table(text)))
    } else {
        Err(fault_kind(text[choose|i: int| first_fault(text, i)]))
    }
}

/// A text has at most one first fault.
proof fn lemma_first_fault_unique(text: Seq<char>, i: int)
    requires
        first_fault(text, i),
    ensures
        !rule_text_valid(text),
        (choose|k: int| first_fault(text, k)) == i,
{
    let k = choose|k: int| first_fault(text, k);
    assert(first_fault(text, k));
    if k < i {
        assert(!fault_at(text, k));
    } else if i < k {
        assert(!fault_at(text, i));
    }
}

/// What one more character adds to the prefix facts.
proof fn lemma_extend(text: Seq<char>, i: int)
    requires
        0 <= i < text.len(),
    ensures
        before_slash(text, i + 1) == (before_slash(text, i) && text[i] != '/'),
        valid_upto(text, i + 1) == (valid_upto(text, i) && !fault_at(text, i)),
        forall|n: int|
            survive_upto(text, n, i + 1) == (survive_upto(text, n, i) || (before_slash(text, i)
                && digit_value(text[i]) == Some(n))),
        forall|n: int|
            born_upto(text, n, i + 1) == (born_upto(text, n, i) || (!before_slash(text, i)
                && digit_value(text[i]) == Some(n))),
{
    if before_slash(text, i) && text[i] != '/' {
        assert(before_slash(text, i + 1));
    }
    if valid_upto(text, i) && !fault_at(text, i) {
        assert(valid_upto(text, i + 1));
    }
    assert forall|n: int|
        survive_upto(text, n, i + 1) == (survive_upto(text, n, i) || (before_slash(text, i)
            && digit_value(text[i]) == Some(n))) by {
        if survive_upto(text, n, i) {
            let j = choose|j: int|
                0 <= j < i && before_slash(text, j) && #[trigger] digit_value(text[j]) == Some(n);
            assert(0 <= j < i + 1 && before_slash(text, j) && digit_value(text[j]) == Some(n));
        }
        if before_slash(text, i) && digit_value(text[i]) == Some(n) {
            assert(0 <= i < i + 1 && before_slash(text, i) && digit_value(text[i]) == Some(n));
        }
    }
    assert forall|n: int|
        born_upto(text, n, i + 1) == (born_upto(text, n, i) || (!before_slash(text, i)
            && digit_value(text[i]) == Some(n))) by {
        if born_upto(text, n, i) {
            let j = choose|j: int|
                0 <= j < i && !before_slash(text, j) && #[trigger] digit_value(text[j]) == Some(n);
            assert(0 <= j < i + 1 && !before_slash(text, j) && digit_value(text[j]) == Some(n));
        }
        if !before_slash(text, i) && digit_value(text[i]) == Some(n) {
            assert(0 <= i < i + 1 && !before_slash(text, i) && digit_value(text[i]) == Some(n));
        }
    }
}

/// The value of a decimal digit, or `None` for any other character.
fn to_digit(c: char) -> (value: Option<u8>)
    ensures
        match value {
            Some(d) => digit_value(c) == Some(d as int),
            None => digit_value(c) is None,
        },
{
    if '0' <= c && c <= '9' {
        Some((c as u32 - '0' as u32) as u8)
    } else {
        None
    }
}

/// Reads a rule descriptor into its survive and born tables, each indexed by
/// a neighbor count from 0 to 8. The digits before the first slash are the
/// counts on which a live cell survives, those after it the counts on which a
/// dead cell is born.
pub fn parse_rule(rule: &str) -> (tables: Result<([bool; 9], [bool; 9]), RuleError>)
    ensures
        match tables {
            Ok((survive, born)) => rule_of(rule@) == Ok::<(Seq<bool>, Seq<bool>), RuleError>(
                (survive@, born@),
            ),
            Err(e) => rule_of(rule@) == Err::<(Seq<bool>, Seq<bool>), RuleError>(e),
        },
{
    let mut survive: [bool; 9] = [false; 9];
    let mut born: [bool; 9] = [false; 9];
    let mut seen_slash: bool = false;
    let total: usize = rule.unicode_len();
    let mut i: usize = 0;
    while i < total
        invariant
            i <= total,
            total == rule@.len(),
            seen_slash == !before_slash(rule@, i as int),
            valid_upto(rule@, i as int),
            forall|n: int| 0 <= n < 9 ==> survive@[n] == survive_upto(rule@, n, i as int),
            forall|n: int| 0 <= n < 9 ==> born@[n] == born_upto(rule@, n, i as int),
        decreases total - i,
    {
        let c: char = rule.get_char(i);
        proof {
            lemma_extend(rule@, i as int);
        }
        if c == '/' && !seen_slash {
            seen_slash = true;
        } else {
            match to_digit(c) {
                None => {
                    proof {
                        lemma_first_fault_unique(rule@, i as int);
                    }
                    return Err(RuleError::NotADigit);
                },
                Some(num) => {
                    if num >= 9 {
                        proof {
                            lemma_first_fault_unique(rule@, i as int);
                        }
                        return Err(RuleError::TooManyNeighbors);
                    }
                    if seen_slash {
                        born[num as usize] = true;
                    } else {
                        survive[num as usize] = true;
                    }
                },
            }
        }
        i += 1;
    }
    proof {
        assert(survive@ =~= survive_table(rule@));
        assert(born@ =~= born_table(rule@));
    }
    Ok((survive, born))
}

} // verus!
