//! What holds of the library as a whole.

use vstd::prelude::*;
use vstd::utf8::{decode_utf8, encode_utf8, encode_utf8_decode_utf8};
use crate::converter::ConverterModel;
use crate::engine::{apart, lemma_apart, whole_end, whole_start, CaptureView};
use crate::error::ParseError;
use crate::parser::{
    assemble,
    came_from,
    collect,
    compiled,
    kept,
    lemma_all_or_nothing,
    lemma_values_len,
    text_of,
    value_of,
    Parser,
};
use crate::result::ParseResultView;
use crate::template::{groups_in_order, lemma_compile_shape, tags_known, FieldSpecView};

verus! {

/// Compiling is a function of its arguments: two parsers compiled from one
/// template, in one case mode and with converters that do the same, have the
/// same table of fields, and read, search and collect alike in every text.
pub proof fn lemma_compile_deterministic(
    first: Parser,
    second: Parser,
    format: Seq<char>,
    case_sensitive: bool,
    models: Map<Seq<char>, ConverterModel>,
)
    requires
        Some(first@) == compiled(format, case_sensitive, models),
        Some(second@) == compiled(format, case_sensitive, models),
    ensures
        first@.fields == second@.fields,
        forall|text: Seq<char>| first@.parse(text) == second@.parse(text),
        forall|text: Seq<char>| first@.search(text) == second@.search(text),
        forall|text: Seq<char>| first@.findall(text) == second@.findall(text),
{
}

/// A compiled parser holds its fields in the order of their capture groups,
/// counted from one, and has a converter for each type tag of a field.
pub proof fn lemma_compiled_fields(
    parser: Parser,
    format: Seq<char>,
    case_sensitive: bool,
    models: Map<Seq<char>, ConverterModel>,
)
    requires
        Some(parser@) == compiled(format, case_sensitive, models),
    ensures
        groups_in_order(parser@.fields),
        tags_known(parser@.fields, parser@.converters),
{
    lemma_compile_shape(format, models);
}

/// In a compiled parser the text of every field with a type is converted by
/// the converter of that type.
pub proof fn lemma_typed_fields_convert(
    parser: Parser,
    format: Seq<char>,
    case_sensitive: bool,
    models: Map<Seq<char>, ConverterModel>,
    k: int,
    text: Seq<char>,
)
    requires
        Some(parser@) == compiled(format, case_sensitive, models),
        0 <= k < parser@.fields.len(),
        parser@.fields[k].type_tag is Some,
    ensures
        ({
            let tag = parser@.fields[k].type_tag->0;
            value_of(parser@.fields[k], parser@.converters, text) == (models[tag].convert)(text)
        }),
{
    lemma_compile_shape(format, models);
}

/// A match is given up as a whole as soon as the text of one of its fields
/// does not convert.
pub proof fn lemma_one_failure_fails_the_match(
    fields: Seq<FieldSpecView>,
    models: Map<Seq<char>, ConverterModel>,
    groups: Seq<Option<CaptureView>>,
    k: int,
)
    requires
        0 <= k < fields.len(),
        value_of(fields[k], models, text_of(groups, fields[k].group_index)) is Err,
    ensures
        assemble(fields, models, groups) is Err,
{
    lemma_all_or_nothing(fields, models, groups, fields.len());
}

/// A match gives one text, one identifier, one span and one value for each
/// field of the template.
pub proof fn lemma_assemble_aligned(
    fields: Seq<FieldSpecView>,
    models: Map<Seq<char>, ConverterModel>,
    groups: Seq<Option<CaptureView>>,
)
    ensures
        assemble(fields, models, groups) matches Ok(result) ==> {
            &&& result.fixed.len() == fields.len()
            &&& result.named.len() == fields.len()
            &&& result.spans.len() == fields.len()
            &&& result.converted.len() == fields.len()
        },
{
    lemma_values_len(fields, models, groups, fields.len());
}

/// Collecting drops matches and adds none: there are at most as many results
/// as matches.
pub proof fn lemma_collect_len(
    fields: Seq<FieldSpecView>,
    models: Map<Seq<char>, ConverterModel>,
    found: Seq<Seq<Option<CaptureView>>>,
    n: nat,
)
    ensures
        collect(fields, models, found, n).len() <= n,
    decreases n,
{
    if n > 0 {
        lemma_collect_len(fields, models, found, (n - 1) as nat);
    }
}

/// What is collected comes from left to right and without overlap: of two
/// results, the match of the earlier one ends at or before the place at
/// which the match of the later one starts.
pub proof fn lemma_results_apart(
    results: Seq<ParseResultView>,
    fields: Seq<FieldSpecView>,
    models: Map<Seq<char>, ConverterModel>,
    found: Seq<Seq<Option<CaptureView>>>,
    j: int,
    k: int,
)
    requires
        apart(found),
        came_from(results, fields, models, found),
        0 <= j < k < results.len(),
    ensures
        ({
            let places = kept(fields, models, found, found.len());
            &&& 0 <= places[j] < places[k] < found.len()
            &&& assemble(fields, models, found[places[j]]) == Ok::<ParseResultView, ParseError>(
                results[j],
            )
            &&& assemble(fields, models, found[places[k]]) == Ok::<ParseResultView, ParseError>(
                results[k],
            )
            &&& whole_end(found[places[j]]) <= whole_start(found[places[k]])
        }),
{
    let places = kept(fields, models, found, found.len());
    assert(places[j] < places[k]);
    lemma_apart(found, places[j], places[k]);
}

/// The bytes `bytes` with those of the span `span` replaced by `part`.
pub open spec fn put_back(bytes: Seq<u8>, span: (int, int), part: Seq<u8>) -> Seq<u8> {
    bytes.subrange(0, span.0) + part + bytes.subrange(span.1, bytes.len() as int)
}

/// The bytes `bytes` after the text of each of the first `n` fields of
/// `result` was put back in the place of the field's span, one field after
/// the other.
pub open spec fn put_back_all(bytes: Seq<u8>, result: ParseResultView, n: nat) -> Seq<u8>
    decreases n,
{
    if n == 0 {
        bytes
    } else {
        put_back(
            put_back_all(bytes, result, (n - 1) as nat),
            result.spans[n - 1],
            encode_utf8(result.fixed[n - 1]),
        )
    }
}

/// The text of a field, put in the place of the field's span, leaves the
/// text that was read as it was.
pub proof fn lemma_field_fits_span(result: ParseResultView, text: Seq<char>, i: int)
    requires
        result.cut_from(text),
        0 <= i < result.fixed.len(),
    ensures
        put_back(encode_utf8(text), result.spans[i], encode_utf8(result.fixed[i])) == encode_utf8(
            text,
        ),
{
}

/// The fields of a match stand in the text where their spans say: when the
/// text of every field is put back in the place of the field's span, the
/// text that was read comes out again, byte for byte and character for
/// character.
pub proof fn lemma_fields_fit_spans(result: ParseResultView, text: Seq<char>, n: nat)
    requires
        result.cut_from(text),
        n <= result.fixed.len(),
    ensures
        put_back_all(encode_utf8(text), result, n) == encode_utf8(text),
        decode_utf8(put_back_all(encode_utf8(text), result, n)) == text,
    decreases n,
{
    if n > 0 {
        lemma_fields_fit_spans(result, text, (n - 1) as nat);
        lemma_field_fits_span(result, text, n - 1);
    }
    encode_utf8_decode_utf8(text);
}

} // verus!
