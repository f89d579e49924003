//! The `metadata` of a request: at most 16 entries, each key at most 64
//! characters and each value a text of at most 512 characters.

use vstd::prelude::*;

use crate::json::{ascending, first_key, lemma_some_first_key, Json, JsonView};
use crate::records::lemma_first_of_list;
use crate::text::{decimal, decimal_text};

verus! {

/// The most entries.
pub const METADATA_MAX_ENTRIES: usize = 16;

/// The most characters of a key.
pub const METADATA_MAX_KEY_CHARS: usize = 64;

/// The most characters of a value.
pub const METADATA_MAX_VALUE_CHARS: usize = 512;

/// Why an entry is refused.
pub open spec fn entry_fault(key: Seq<char>, value: JsonView) -> Option<Seq<char>> {
    if key.len() > METADATA_MAX_KEY_CHARS {
        Some("metadata key `"@ + key + "` is too long: at most 64 characters"@)
    } else {
        match value {
            JsonView::Str(text) => if text.len() > METADATA_MAX_VALUE_CHARS {
                Some(
                    "metadata value for key `"@ + key + "` is too long: at most 512 characters"@,
                )
            } else {
                None
            },
            _ => Some("metadata value for key `"@ + key + "` must be a string"@),
        }
    }
}

/// The keys of the entries that are refused.
pub open spec fn refused_entries(entries: Map<Seq<char>, JsonView>) -> Set<Seq<char>> {
    entries.dom().filter(|key: Seq<char>| entry_fault(key, entries[key]) is Some)
}

/// Why a metadata value is refused: it is no object, it has too many entries, or
/// its first refused entry.
pub open spec fn metadata_fault(metadata: Option<JsonView>) -> Option<Seq<char>> {
    match metadata {
        None => None,
        Some(JsonView::Null) => None,
        Some(JsonView::Object(entries)) => if entries.len() > METADATA_MAX_ENTRIES {
            Some("metadata must have at most 16 entries, got "@ + decimal(entries.len()))
        } else if exists|key: Seq<char>| refused_entries(entries).contains(key) {
            let key = first_key(refused_entries(entries));
            entry_fault(key, entries[key])
        } else {
            None
        },
        Some(_) => Some("metadata must be an object of string values"@),
    }
}

/// Checks a metadata value against the limits. None and `null` are accepted.
pub fn validate_metadata(metadata: Option<&Json>) -> (checked: Result<(), String>)
    ensures
        match checked {
            Ok(_) => metadata_fault(metadata.deep_view()) is None,
            Err(message) => metadata_fault(metadata.deep_view()) == Some(message@),
        },
{
    let entries = match metadata {
        None => {
            return Ok(());
        },
        Some(Json::Null) => {
            return Ok(());
        },
        Some(Json::Object(entries)) => entries,
        Some(_) => {
            return Err("metadata must be an object of string values".to_owned());
        },
    };
    let size: usize = entries.len();
    if size > METADATA_MAX_ENTRIES {
        return Err(
            "metadata must have at most 16 entries, got ".to_owned().concat(
                decimal_text(size as u64).as_str(),
            ),
        );
    }
    let ghost keys = entries.keys();
    let ghost refused = refused_entries(entries@);
    for i in 0..size
        invariant
            size == keys.len(),
            size <= METADATA_MAX_ENTRIES,
            size == entries@.len(),
            metadata.deep_view() == Some(JsonView::Object(entries@)),
            keys == entries.keys(),
            ascending(keys),
            refused == refused_entries(entries@),
            forall|key: Seq<char>| entries@.contains_key(key) <==> #[trigger] keys.contains(key),
            forall|j: int| 0 <= j < i ==> !refused.contains(#[trigger] keys[j]),
    {
        let key = entries.key_at(i).as_str();
        let value = entries.value_at(i);
        let fault = if key.unicode_len() > METADATA_MAX_KEY_CHARS {
            Some(
                "metadata key `".to_owned().concat(key).concat(
                    "` is too long: at most 64 characters",
                ),
            )
        } else {
            match value.as_str() {
                None => Some(
                    "metadata value for key `".to_owned().concat(key).concat(
                        "` must be a string",
                    ),
                ),
                Some(text) => if text.unicode_len() > METADATA_MAX_VALUE_CHARS {
                    Some(
                        "metadata value for key `".to_owned().concat(key).concat(
                            "` is too long: at most 512 characters",
                        ),
                    )
                } else {
                    None
                },
            }
        };
        assert(fault.deep_view() == entry_fault(key@, entries@[key@]));
        if let Some(message) = fault {
            proof {
                lemma_first_of_list(keys, refused, i as int);
                assert(refused_entries(entries@).contains(key@));
            }
            return Err(message);
        }
    }
    assert forall|key: Seq<char>| !refused.contains(key) by {
        if refused.contains(key) {
            assert(keys.contains(key));
            assert(keys[keys.index_of(key)] == key);
        }
    }
    Ok(())
}

/// A metadata value is accepted exactly when it is missing or `null`, or an object
/// inside the limits. Every limit is inclusive.
pub proof fn law_metadata_limits_are_inclusive(metadata: Option<JsonView>)
    requires
        metadata matches Some(JsonView::Object(entries)) ==> entries.dom().finite(),
    ensures
        metadata_fault(metadata) is None <==> match metadata {
            None => true,
            Some(JsonView::Null) => true,
            Some(JsonView::Object(entries)) => entries.len() <= 16 && forall|key: Seq<char>|
                entries.contains_key(key) ==> key.len() <= 64 && (#[trigger] entries[key]) is Str
                    && entries[key]->Str_0.len() <= 512,
            Some(_) => false,
        },
{
    if let Some(JsonView::Object(entries)) = metadata {
        let refused = refused_entries(entries);
        if entries.len() <= 16 {
            if exists|key: Seq<char>| refused.contains(key) {
                lemma_some_first_key(refused);
                let key = first_key(refused);
                assert(refused.contains(key));
                assert(entries.contains_key(key));
            } else {
                assert forall|key: Seq<char>| entries.contains_key(key) implies key.len() <= 64 && (
                #[trigger] entries[key]) is Str && entries[key]->Str_0.len() <= 512 by {
                    assert(!refused.contains(key));
                }
            }
        }
    }
}

} // verus!
