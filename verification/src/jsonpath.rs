//! Paths into JSON documents: segments divided by dots, each a field name
//! that any number of bracketed positions may follow, as in `abi[0].name`.
use vstd::prelude::*;
use vstd::string::*;
use crate::errors::{DeployerError, ErrorView};
use crate::json::{JsonModel, JsonValue};
use crate::text::{decimal, decimal_text};

verus! {

/// The character `c` stands in `text` at `i`, and nowhere before.
pub open spec fn is_first_index(text: Seq<char>, c: char, i: int) -> bool {
    &&& 0 <= i < text.len()
    &&& text[i] == c
    &&& forall|j: int| 0 <= j < i ==> text[j] != c
}

/// Where the character `c` first stands in `text`.
pub open spec fn first_index_of(text: Seq<char>, c: char) -> Option<int> {
    if exists|i: int| is_first_index(text, c, i) {
        Some(choose|i: int| is_first_index(text, c, i))
    } else {
        None
    }
}

/// The character is a decimal digit.
pub open spec fn is_digit(c: char) -> bool {
    '0' <= c <= '9'
}

/// The number that decimal digits stand for.
pub open spec fn digits_value(digits: Seq<char>) -> nat
    decreases digits.len(),
{
    if digits.len() == 0 {
        0
    } else {
        digits_value(digits.drop_last()) * 10 + (digits.last() as nat - '0' as nat) as nat
    }
}

/// The text is one or more decimal digits.
pub open spec fn is_digits(digits: Seq<char>) -> bool {
    &&& digits.len() > 0
    &&& forall|i: int| 0 <= i < digits.len() ==> is_digit(#[trigger] digits[i])
}

/// The position that the text stands for: decimal digits whose number a
/// machine word holds.
pub open spec fn parsed_index(digits: Seq<char>) -> Option<nat> {
    if is_digits(digits) && digits_value(digits) <= usize::MAX {
        Some(digits_value(digits))
    } else {
        None
    }
}

/// The text without the closing brackets at its end.
pub open spec fn without_closing_brackets(text: Seq<char>) -> Seq<char>
    decreases text.len(),
{
    if text.len() > 0 && text.last() == ']' {
        without_closing_brackets(text.drop_last())
    } else {
        text
    }
}

/// The text of the error for a field that the object lacks.
pub open spec fn field_missing_message(name: Seq<char>) -> Seq<char> {
    "Field '"@ + name + "' not found"@
}

/// The text of the error for a position that is no number.
pub open spec fn invalid_index_message(digits: Seq<char>) -> Seq<char> {
    "Invalid array index: "@ + digits
}

/// The text of the error for a position past the end of the array.
pub open spec fn out_of_bounds_message(index: nat) -> Seq<char> {
    "Array index "@ + decimal(index) + " out of bounds"@
}

/// The field `name` of the value.
pub open spec fn at_field(value: JsonModel, name: Seq<char>) -> Result<JsonModel, ErrorView> {
    match value.field(name) {
        Some(found) => Ok(found),
        None => Err(ErrorView::Config(field_missing_message(name))),
    }
}

/// The element that one bracketed position names: `piece` is what stands
/// between one opening bracket and the next. An empty piece names the value
/// itself.
pub open spec fn at_index(value: JsonModel, piece: Seq<char>) -> Result<JsonModel, ErrorView> {
    if piece.len() == 0 {
        Ok(value)
    } else {
        let digits = without_closing_brackets(piece);
        match parsed_index(digits) {
            None => Err(ErrorView::Config(invalid_index_message(digits))),
            Some(index) => match value.element(index) {
                Some(found) => Ok(found),
                None => Err(ErrorView::Config(out_of_bounds_message(index))),
            },
        }
    }
}

/// The element that a run of bracketed positions names, one after the
/// other.
pub open spec fn at_indexes(value: JsonModel, rest: Seq<char>) -> Result<JsonModel, ErrorView>
    decreases rest.len(),
{
    match first_index_of(rest, '[') {
        None => at_index(value, rest),
        Some(i) => if 0 <= i < rest.len() {
            match at_index(value, rest.subrange(0, i)) {
                Ok(found) => at_indexes(found, rest.subrange(i + 1, rest.len() as int)),
                Err(e) => Err(e),
            }
        } else {
            at_index(value, rest)
        },
    }
}

/// What one segment of a path names: an empty segment the value itself; a
/// name the field of that name; a name with bracketed positions the element
/// of that field; bracketed positions alone the element of the value.
pub open spec fn at_segment(value: JsonModel, part: Seq<char>) -> Result<JsonModel, ErrorView> {
    if part.len() == 0 {
        Ok(value)
    } else {
        match first_index_of(part, '[') {
            None => at_field(value, part),
            Some(bracket) => {
                let base = if bracket > 0 {
                    at_field(value, part.subrange(0, bracket))
                } else {
                    Ok(value)
                };
                match base {
                    Ok(found) => at_indexes(found, part.subrange(bracket, part.len() as int)),
                    Err(e) => Err(e),
                }
            },
        }
    }
}

/// What a path names in a document: its segments are followed one after
/// the other, and the first failure is the result.
pub open spec fn navigated(value: JsonModel, path: Seq<char>) -> Result<JsonModel, ErrorView>
    decreases path.len(),
{
    match first_index_of(path, '.') {
        None => at_segment(value, path),
        Some(i) => if 0 <= i < path.len() {
            match at_segment(value, path.subrange(0, i)) {
                Ok(found) => navigated(found, path.subrange(i + 1, path.len() as int)),
                Err(e) => Err(e),
            }
        } else {
            at_segment(value, path)
        },
    }
}

/// What a lookup in a document gives as a mathematical value.
pub open spec fn found_model(result: Result<&JsonValue, DeployerError>) -> Result<
    JsonModel,
    ErrorView,
> {
    match result {
        Ok(value) => Ok(value@),
        Err(e) => Err(e@),
    }
}

proof fn lemma_first_index_is_unique(text: Seq<char>, c: char, i: int)
    requires
        is_first_index(text, c, i),
    ensures
        first_index_of(text, c) == Some(i),
{
    let chosen = choose|k: int| is_first_index(text, c, k);
    if chosen < i {
        assert(text[chosen] != c);
    }
    if i < chosen {
        assert(text[i] != c);
    }
}

proof fn lemma_no_index(text: Seq<char>, c: char)
    requires
        forall|j: int| 0 <= j < text.len() ==> text[j] != c,
    ensures
        first_index_of(text, c) is None,
{
    if exists|i: int| is_first_index(text, c, i) {
        let i = choose|i: int| is_first_index(text, c, i);
        assert(text[i] != c);
    }
}

/// Finds the first `c` between `start` and `end`.
pub fn find_char(path: &str, start: usize, end: usize, c: char) -> (found: Option<usize>)
    requires
        start <= end <= path@.len(),
    ensures
        match first_index_of(path@.subrange(start as int, end as int), c) {
            Some(i) => found matches Some(at) && at == start + i && 0 <= i < end - start,
            None => found is None,
        },
{
    let ghost part = path@.subrange(start as int, end as int);
    let mut i: usize = start;
    while i < end
        invariant
            start <= i <= end <= path@.len(),
            part == path@.subrange(start as int, end as int),
            forall|j: int| 0 <= j < i - start ==> part[j] != c,
        decreases end - i,
    {
        if path.get_char(i) == c {
            proof {
                assert(part[i - start] == c);
                lemma_first_index_is_unique(part, c, i - start);
            }
            return Some(i);
        }
        i += 1;
    }
    proof {
        lemma_no_index(part, c);
    }
    None
}

proof fn lemma_digits_value_grows(digits: Seq<char>, k: int)
    requires
        0 <= k <= digits.len(),
        forall|i: int| 0 <= i < digits.len() ==> is_digit(#[trigger] digits[i]),
    ensures
        digits_value(digits.subrange(0, k)) <= digits_value(digits),
    decreases digits.len() - k,
{
    if k < digits.len() {
        lemma_digits_value_grows(digits, k + 1);
        let longer = digits.subrange(0, k + 1);
        assert(longer.drop_last() =~= digits.subrange(0, k));
        assert(is_digit(digits[k]));
    } else {
        assert(digits.subrange(0, k) =~= digits);
    }
}

/// Reads the decimal digits between `start` and `end` as a position.
fn parse_index(path: &str, start: usize, end: usize) -> (index: Option<usize>)
    requires
        start <= end <= path@.len(),
    ensures
        match parsed_index(path@.subrange(start as int, end as int)) {
            Some(n) => index matches Some(at) && at == n,
            None => index is None,
        },
{
    let ghost digits = path@.subrange(start as int, end as int);
    if start == end {
        return None;
    }
    let mut value: usize = 0;
    let mut i: usize = start;
    assert(digits.subrange(0, 0) =~= Seq::<char>::empty());
    while i < end
        invariant
            start <= i <= end <= path@.len(),
            digits == path@.subrange(start as int, end as int),
            forall|j: int| 0 <= j < i - start ==> is_digit(#[trigger] digits[j]),
            value == digits_value(digits.subrange(0, i - start)),
        decreases end - i,
    {
        let c = path.get_char(i);
        assert(digits[i - start] == c);
        if c < '0' || c > '9' {
            return None;
        }
        let d = (c as u32 - '0' as u32) as usize;
        let ghost longer = digits.subrange(0, i - start + 1);
        proof {
            assert(longer.drop_last() =~= digits.subrange(0, i - start));
            assert(longer.last() == c);
            assert(digits_value(longer) == value * 10 + d);
        }
        if value > (usize::MAX - d) / 10 {
            proof {
                assert(digits_value(longer) > usize::MAX);
                if is_digits(digits) {
                    lemma_digits_value_grows(digits, i - start + 1);
                }
            }
            return None;
        }
        value = value * 10 + d;
        i += 1;
    }
    proof {
        assert(digits.subrange(0, end - start) =~= digits);
    }
    Some(value)
}

/// The element that one bracketed position names.
fn index_piece<'a>(value: &'a JsonValue, path: &str, start: usize, end: usize) -> (result: Result<
    &'a JsonValue,
    DeployerError,
>)
    requires
        start <= end <= path@.len(),
    ensures
        found_model(result) == at_index(value@, path@.subrange(start as int, end as int)),
{
    if start == end {
        return Ok(value);
    }
    let ghost piece = path@.subrange(start as int, end as int);
    let mut stop: usize = end;
    while stop > start && path.get_char(stop - 1) == ']'
        invariant
            start <= stop <= end <= path@.len(),
            piece == path@.subrange(start as int, end as int),
            without_closing_brackets(piece) == without_closing_brackets(
                path@.subrange(start as int, stop as int),
            ),
        decreases stop - start,
    {
        proof {
            let here = path@.subrange(start as int, stop as int);
            assert(here.drop_last() =~= path@.subrange(start as int, stop - 1));
        }
        stop -= 1;
    }
    let digits = path.substring_char(start, stop);
    match parse_index(path, start, stop) {
        None => Err(
            DeployerError::Config(String::from_str("Invalid array index: ").concat(digits)),
        ),
        Some(index) => match value.get_element(index) {
            Some(found) => Ok(found),
            None => Err(
                DeployerError::Config(
                    String::from_str("Array index ").concat(decimal_text(index).as_str()).concat(
                        " out of bounds",
                    ),
                ),
            ),
        },
    }
}

/// The element that a run of bracketed positions names.
fn index_run<'a>(value: &'a JsonValue, path: &str, start: usize, end: usize) -> (result: Result<
    &'a JsonValue,
    DeployerError,
>)
    requires
        start <= end <= path@.len(),
    ensures
        found_model(result) == at_indexes(value@, path@.subrange(start as int, end as int)),
    decreases end - start,
{
    let ghost rest = path@.subrange(start as int, end as int);
    match find_char(path, start, end, '[') {
        None => index_piece(value, path, start, end),
        Some(opening) => {
            proof {
                assert(rest.subrange(0, opening - start) =~= path@.subrange(
                    start as int,
                    opening as int,
                ));
                assert(rest.subrange(opening - start + 1, rest.len() as int) =~= path@.subrange(
                    opening + 1,
                    end as int,
                ));
            }
            match index_piece(value, path, start, opening) {
                Ok(found) => index_run(found, path, opening + 1, end),
                Err(e) => Err(e),
            }
        },
    }
}

/// The field named between `start` and `end`.
fn field_range<'a>(value: &'a JsonValue, path: &str, start: usize, end: usize) -> (result: Result<
    &'a JsonValue,
    DeployerError,
>)
    requires
        start <= end <= path@.len(),
    ensures
        found_model(result) == at_field(value@, path@.subrange(start as int, end as int)),
{
    let name = path.substring_char(start, end);
    match value.get_field(name) {
        Some(found) => Ok(found),
        None => Err(
            DeployerError::Config(String::from_str("Field '").concat(name).concat("' not found")),
        ),
    }
}

/// What the segment between `start` and `end` names.
fn segment<'a>(value: &'a JsonValue, path: &str, start: usize, end: usize) -> (result: Result<
    &'a JsonValue,
    DeployerError,
>)
    requires
        start <= end <= path@.len(),
    ensures
        found_model(result) == at_segment(value@, path@.subrange(start as int, end as int)),
{
    if start == end {
        return Ok(value);
    }
    let ghost part = path@.subrange(start as int, end as int);
    match find_char(path, start, end, '[') {
        None => field_range(value, path, start, end),
        Some(bracket) => {
            proof {
                assert(part.subrange(0, bracket - start) =~= path@.subrange(
                    start as int,
                    bracket as int,
                ));
                assert(part.subrange(bracket - start, part.len() as int) =~= path@.subrange(
                    bracket as int,
                    end as int,
                ));
            }
            let base = if bracket > start {
                match field_range(value, path, start, bracket) {
                    Ok(found) => found,
                    Err(e) => {
                        return Err(e);
                    },
                }
            } else {
                value
            };
            index_run(base, path, bracket, end)
        },
    }
}

/// What the path from `start` on names.
fn navigate_from<'a>(value: &'a JsonValue, path: &str, start: usize, end: usize) -> (result:
    Result<&'a JsonValue, DeployerError>)
    requires
        start <= end,
        end == path@.len(),
    ensures
        found_model(result) == navigated(value@, path@.subrange(start as int, end as int)),
    decreases end - start,
{
    let ghost rest = path@.subrange(start as int, end as int);
    match find_char(path, start, end, '.') {
        None => segment(value, path, start, end),
        Some(dot) => {
            proof {
                assert(rest.subrange(0, dot - start) =~= path@.subrange(start as int, dot as int));
                assert(rest.subrange(dot - start + 1, rest.len() as int) =~= path@.subrange(
                    dot + 1,
                    end as int,
                ));
            }
            match segment(value, path, start, dot) {
                Ok(found) => navigate_from(found, path, dot + 1, end),
                Err(e) => Err(e),
            }
        },
    }
}

/// Follows a path into a JSON document.
///
/// Fails with `Config` where an object lacks a field that the path names,
/// where a bracketed position is no number, and where it is past the end of
/// the array.
pub fn navigate_json_path<'a>(value: &'a JsonValue, path: &str) -> (result: Result<
    &'a JsonValue,
    DeployerError,
>)
    ensures
        found_model(result) == navigated(value@, path@),
{
    let end = path.unicode_len();
    assert(path@.subrange(0, end as int) =~= path@);
    navigate_from(value, path, 0, end)
}

} // verus!
