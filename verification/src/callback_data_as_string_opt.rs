//! The text form of what a click carries, where it may carry nothing.

use crate::callback_data_as_string::{decoded, encoded, InvalidCallbackData};
use crate::entities::CallbackData;
use vstd::prelude::*;

verus! {

/// Writes `callback_data` as text, where there is any.
pub fn serialize(callback_data: &Option<CallbackData>) -> (text: Option<String>)
    ensures
        match *callback_data {
            Some(data) => text matches Some(t) && t@ == encoded(data),
            None => text is None,
        },
{
    match callback_data {
        Some(data) => Some(crate::callback_data_as_string::serialize(data)),
        None => None,
    }
}

/// What reading `text` gives: nothing where there is no text, else what the
/// text stands for, or the error.
pub open spec fn deserialized(text: Option<&str>) -> Result<
    Option<CallbackData>,
    InvalidCallbackData,
> {
    match text {
        Some(text) => match decoded(text@) {
            Some(callback_data) => Ok(Some(callback_data)),
            None => Err(InvalidCallbackData),
        },
        None => Ok(None),
    }
}

/// Reads `text` back, where there is any.
pub fn deserialize(text: Option<&str>) -> (callback_data: Result<
    Option<CallbackData>,
    InvalidCallbackData,
>)
    ensures
        callback_data == deserialized(text),
{
    match text {
        Some(text) => match crate::callback_data_as_string::deserialize(text) {
            Ok(callback_data) => Ok(Some(callback_data)),
            Err(err) => Err(err),
        },
        None => Ok(None),
    }
}

} // verus!
