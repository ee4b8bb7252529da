//! The manifest reader: from an image description to the set of layers that
//! the described image already holds.

use crate::digest::{layer_digest, normalize, DIGEST_PREFIX};
use crate::error::{ParseError, TrimError};
use crate::json::{json_document, parse, Json, JsonValue};
use crate::layers::LayerSet;
use crate::text::{trim, trimmed};
use vstd::prelude::*;

verus! {

/// The layer list of a description: the array at `[0].RootFS.Layers`.
pub open spec fn layer_list(doc: JsonValue) -> Option<Seq<JsonValue>> {
    match doc.element(0) {
        Some(image) => match image.member("RootFS"@) {
            Some(root) => match root.member("Layers"@) {
                Some(JsonValue::Array(items)) => Some(items),
                _ => None,
            },
            None => None,
        },
        None => None,
    }
}

/// Whether every item is a string.
pub open spec fn all_strings(items: Seq<JsonValue>) -> bool {
    forall|i: int| 0 <= i < items.len() ==> (#[trigger] items[i]) is Str
}

/// The digests that the string items stand for.
pub open spec fn reference_digests(items: Seq<JsonValue>) -> Set<Seq<char>> {
    Set::new(
        |digest: Seq<char>|
            exists|i: int|
                0 <= i < items.len() && (#[trigger] items[i]) is Str && layer_digest(
                    items[i]->Str_0,
                ) == digest,
    )
}

/// The reference layer set of a description, or why it has none.
pub open spec fn manifest_layers(doc: JsonValue) -> Result<Set<Seq<char>>, ParseError> {
    match layer_list(doc) {
        None => Err(ParseError::LayersNotArray),
        Some(items) => if all_strings(items) {
            Ok(reference_digests(items))
        } else {
            Err(ParseError::LayerNotString)
        },
    }
}

/// The layer list of `doc`, where it has one.
fn find_layer_list(doc: &Json) -> (r: Option<&Vec<Json>>)
    ensures
        match r {
            Some(items) => layer_list(doc@) == Some(items@.map_values(|item: Json| item@)),
            None => layer_list(doc@) is None,
        },
{
    match doc.element(0) {
        Some(image) => match image.member("RootFS") {
            Some(root) => match root.member("Layers") {
                Some(layers) => layers.as_array(),
                None => None,
            },
            None => None,
        },
        None => None,
    }
}

/// The reference layer set of a parsed description.
pub fn layers_of_document(doc: &Json) -> (r: Result<LayerSet, TrimError>)
    ensures
        match r {
            Ok(layers) => manifest_layers(doc@) is Ok && layers@ == manifest_layers(doc@)->Ok_0,
            Err(e) => manifest_layers(doc@) is Err && e == TrimError::Parse(
                manifest_layers(doc@)->Err_0,
            ),
        },
{
    let items = match find_layer_list(doc) {
        Some(items) => items,
        None => {
            return Err(TrimError::Parse(ParseError::LayersNotArray));
        },
    };
    let ghost values = items@.map_values(|item: Json| item@);
    let mut layers = LayerSet::new();
    let mut i: usize = 0;
    while i < items.len()
        invariant
            i <= items.len(),
            values == items@.map_values(|item: Json| item@),
            layer_list(doc@) == Some(values),
            all_strings(values.take(i as int)),
            layers@ == reference_digests(values.take(i as int)),
        decreases items.len() - i,
    {
        let ghost seen = values.take(i as int);
        let ghost next = values.take(i as int + 1);
        match items[i].as_str() {
            Some(reference) => {
                let digest = normalize(reference, DIGEST_PREFIX);
                layers.insert(digest);
                proof {
                    assert(next[i as int] is Str);
                    assert(reference_digests(next) =~= reference_digests(seen).insert(
                        layer_digest(reference@),
                    ));
                }
            },
            None => {
                return Err(TrimError::Parse(ParseError::LayerNotString));
            },
        }
        i += 1;
    }
    assert(values.take(i as int) =~= values);
    Ok(layers)
}

/// Reads the reference layer set out of an image description.
///
/// `content` is the description's text: a JSON array whose first item
/// lists, under `RootFS.Layers`, the digests of the image's layers.
/// Whitespace around the text is passed over.
pub fn read_json_layers(content: &str) -> (r: Result<LayerSet, TrimError>)
    ensures
        match json_document(trim(content@)) {
            None => r matches Err(TrimError::Parse(ParseError::InvalidJson(_))),
            Some(doc) => match r {
                Ok(layers) => manifest_layers(doc) is Ok && layers@ == manifest_layers(doc)->Ok_0,
                Err(e) => manifest_layers(doc) is Err && e == TrimError::Parse(
                    manifest_layers(doc)->Err_0,
                ),
            },
        },
{
    let text = trimmed(content);
    match parse(text.as_str()) {
        Ok(doc) => layers_of_document(&doc),
        Err(message) => Err(TrimError::Parse(ParseError::InvalidJson(message))),
    }
}

} // verus!
