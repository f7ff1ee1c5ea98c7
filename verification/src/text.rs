//! Text given as anything that turns into a `String`.

use vstd::prelude::*;

verus! {

/// `String::from` of std, on a string slice: the same text.
pub assume_specification<'a>[ <String as From<&'a str>>::from ](text: &str) -> (string: String)
    ensures
        string@ == text@,
;

/// `From` of std, from a type to itself: the argument, unchanged.
pub assume_specification<T>[ <T as From<T>>::from ](value: T) -> (same: T)
    ensures
        same == value,
;

/// Is `text` what `value` turns into?
pub open spec fn turns_into<Text: Into<String>>(value: Text, text: Seq<char>) -> bool {
    exists|string: String| #[trigger]
        call_ensures(<Text as Into<String>>::into, (value,), string) && string@ == text
}

/// Text is taken as it is: a string slice and a `String` turn into what they hold, and
/// anything else into what its own conversion gives.
pub proof fn law_text_is_taken_as_it_is<Text: Into<String>>(
    slice: &str,
    string: String,
    value: Text,
    text: Seq<char>,
)
    ensures
        turns_into(slice, text) ==> text == slice@,
        turns_into(string, text) ==> text == string@,
        turns_into(value, text) ==> exists|result: String| #[trigger]
            call_ensures(<Text as Into<String>>::into, (value,), result) && result@ == text,
{
}

} // verus!
