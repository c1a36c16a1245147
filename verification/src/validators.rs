//! Field checks shared by the request bodies and query strings of the API.
use crate::reporting::date_shape;
use crate::text::{is_blank, str_is_blank};
use vstd::prelude::*;

verus! {

/// A check's result: `Ok` when no message is expected, else that message.
pub open spec fn outcome_is(r: Result<(), String>, expected: Option<Seq<char>>) -> bool {
    match expected {
        None => r is Ok,
        Some(m) => r matches Err(x) && x@ == m,
    }
}

/// The first of two check results that failed.
pub open spec fn first_failure(a: Option<Seq<char>>, b: Option<Seq<char>>) -> Option<Seq<char>> {
    if a is Some {
        a
    } else {
        b
    }
}

/// The message for a blank required field.
pub open spec fn required_check(value: Seq<char>, field: Seq<char>) -> Option<Seq<char>> {
    if is_blank(value) {
        Some(field + " nie może być puste"@)
    } else {
        None
    }
}

/// The message for a zero amount.
pub open spec fn positive_check(value: u64, field: Seq<char>) -> Option<Seq<char>> {
    if value == 0 {
        Some(field + " musi być większe od zera"@)
    } else {
        None
    }
}

/// The message for a date that is not `YYYY-MM-DD`.
pub open spec fn date_check(value: Seq<char>, field: Seq<char>) -> Option<Seq<char>> {
    if date_shape(value) {
        None
    } else {
        Some(field + " musi mieć format RRRR-MM-DD"@)
    }
}

/// `field` must not be blank.
pub fn required(value: &str, field: &str) -> (r: Result<(), String>)
    ensures
        outcome_is(r, required_check(value@, field@)),
{
    if str_is_blank(value) {
        Err(String::from_str(field).concat(" nie może być puste"))
    } else {
        Ok(())
    }
}

/// `field` must be greater than zero.
pub fn positive(value: u64, field: &str) -> (r: Result<(), String>)
    ensures
        outcome_is(r, positive_check(value, field@)),
{
    if value == 0 {
        Err(String::from_str(field).concat(" musi być większe od zera"))
    } else {
        Ok(())
    }
}

/// `field` must have the `YYYY-MM-DD` shape (the calendar is not checked here).
pub fn iso_date(value: &str, field: &str) -> (r: Result<(), String>)
    ensures
        outcome_is(r, date_check(value@, field@)),
{
    let error = String::from_str(field).concat(" musi mieć format RRRR-MM-DD");
    if value.unicode_len() != 10 {
        return Err(error);
    }
    let mut i: usize = 0;
    while i < 10
        invariant
            value@.len() == 10,
            i <= 10,
            error@ == field@ + " musi mieć format RRRR-MM-DD"@,
            forall|k: int|
                0 <= k < i && k != 4 && k != 7 ==> crate::decimal::is_digit(#[trigger] value@[k]),
            i > 4 ==> value@[4] == '-',
            i > 7 ==> value@[7] == '-',
        decreases 10 - i,
    {
        let c = value.get_char(i);
        if i == 4 || i == 7 {
            if c != '-' {
                return Err(error);
            }
        } else if !('0' <= c && c <= '9') {
            return Err(error);
        }
        i = i + 1;
    }
    Ok(())
}

} // verus!
