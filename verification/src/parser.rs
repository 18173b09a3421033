//! The parser: a compiled template, ready to read texts.

use vstd::prelude::*;
use vstd::utf8::encode_utf8;
use crate::converter::ConverterModel;
use crate::engine::{
    all_found_view,
    apart,
    captures_in,
    group_views,
    regex_accepts,
    regex_all,
    regex_build,
    regex_captures,
    regex_captures_all,
    regex_first,
    regex_source,
    Capture,
    CaptureView,
};
use crate::error::ParseError;
use crate::registry::{builtin_models, Registry};
use crate::result::{ParseResult, ParseResultView};
use crate::template::{
    compile,
    field_views,
    groups_in_order,
    lemma_compile_shape,
    parse_format,
    tags_known,
    FieldSpec,
    FieldSpecView,
};
use crate::value::{Value, ValueView};

verus! {

/// The text of capture group `group` of a match; no text for a group that
/// the match does not have or that took no part in it.
pub open spec fn text_of(groups: Seq<Option<CaptureView>>, group: int) -> Seq<char> {
    if 0 <= group < groups.len() && groups[group] is Some {
        groups[group]->0.text
    } else {
        Seq::empty()
    }
}

/// Where capture group `group` of a match starts and ends; from zero to zero
/// for a group that the match does not have or that took no part in it.
pub open spec fn span_of(groups: Seq<Option<CaptureView>>, group: int) -> (int, int) {
    if 0 <= group < groups.len() && groups[group] is Some {
        (groups[group]->0.start, groups[group]->0.end)
    } else {
        (0, 0)
    }
}

/// The value of a field with the text `text`: what the converter of the
/// field's type makes of the text, and the text itself for a field without a
/// type or without a converter.
pub open spec fn value_of(
    field: FieldSpecView,
    models: Map<Seq<char>, ConverterModel>,
    text: Seq<char>,
) -> Result<ValueView, ParseError> {
    match field.type_tag {
        Some(tag) => if models.contains_key(tag) {
            (models[tag].convert)(text)
        } else {
            Ok(ValueView::Text(text))
        },
        None => Ok(ValueView::Text(text)),
    }
}

/// The values of the first `n` fields of a match, or the error of the first
/// among them whose text its converter refuses.
pub open spec fn values_of(
    fields: Seq<FieldSpecView>,
    models: Map<Seq<char>, ConverterModel>,
    groups: Seq<Option<CaptureView>>,
    n: nat,
) -> Result<Seq<ValueView>, ParseError>
    decreases n,
{
    if n == 0 {
        Ok(Seq::empty())
    } else {
        match values_of(fields, models, groups, (n - 1) as nat) {
            Ok(values) => match value_of(
                fields[n - 1],
                models,
                text_of(groups, fields[n - 1].group_index),
            ) {
                Ok(value) => Ok(values.push(value)),
                Err(e) => Err(e),
            },
            Err(e) => Err(e),
        }
    }
}

/// What a match with the capture groups `groups` gives for the fields
/// `fields`: for each field its text, its identifier with its text, its span
/// and its value; or the error of the first field whose text its converter
/// refuses.
pub open spec fn assemble(
    fields: Seq<FieldSpecView>,
    models: Map<Seq<char>, ConverterModel>,
    groups: Seq<Option<CaptureView>>,
) -> Result<ParseResultView, ParseError> {
    match values_of(fields, models, groups, fields.len()) {
        Ok(values) => Ok(
            ParseResultView {
                fixed: Seq::new(fields.len(), |i: int| text_of(groups, fields[i].group_index)),
                named: Seq::new(
                    fields.len(),
                    |i: int| (fields[i].identifier, text_of(groups, fields[i].group_index)),
                ),
                spans: Seq::new(fields.len(), |i: int| span_of(groups, fields[i].group_index)),
                converted: values,
            },
        ),
        Err(e) => Err(e),
    }
}

/// What the first `n` of the matches `found` give, without the matches of
/// which some field's text was refused by its converter.
pub open spec fn collect(
    fields: Seq<FieldSpecView>,
    models: Map<Seq<char>, ConverterModel>,
    found: Seq<Seq<Option<CaptureView>>>,
    n: nat,
) -> Seq<ParseResultView>
    decreases n,
{
    if n == 0 {
        Seq::empty()
    } else {
        let before = collect(fields, models, found, (n - 1) as nat);
        match assemble(fields, models, found[n - 1]) {
            Ok(result) => before.push(result),
            Err(_) => before,
        }
    }
}

/// The places, among the first `n` of the matches `found`, of the matches
/// that are kept: those of which every field converts.
pub open spec fn kept(
    fields: Seq<FieldSpecView>,
    models: Map<Seq<char>, ConverterModel>,
    found: Seq<Seq<Option<CaptureView>>>,
    n: nat,
) -> Seq<int>
    decreases n,
{
    if n == 0 {
        Seq::empty()
    } else {
        let before = kept(fields, models, found, (n - 1) as nat);
        if assemble(fields, models, found[n - 1]) is Ok {
            before.push(n - 1)
        } else {
            before
        }
    }
}

/// Whether the results are those of some of the matches `found`, in the
/// order of the matches: there is one place among the matches for each
/// result, the places go up, and each result is what the match at its place
/// gives.
pub open spec fn came_from(
    results: Seq<ParseResultView>,
    fields: Seq<FieldSpecView>,
    models: Map<Seq<char>, ConverterModel>,
    found: Seq<Seq<Option<CaptureView>>>,
) -> bool {
    let places = kept(fields, models, found, found.len());
    &&& places.len() == results.len()
    &&& forall|k: int|
        0 <= k < places.len() ==> 0 <= (#[trigger] places[k]) < found.len() && assemble(
            fields,
            models,
            found[places[k]],
        ) == Ok::<ParseResultView, ParseError>(results[k])
    &&& forall|j: int, k: int|
        0 <= j < k < places.len() ==> (#[trigger] places[j]) < (#[trigger] places[k])
}

/// What is collected from the first `n` matches came from those matches, in
/// their order.
pub proof fn lemma_collect_kept(
    fields: Seq<FieldSpecView>,
    models: Map<Seq<char>, ConverterModel>,
    found: Seq<Seq<Option<CaptureView>>>,
    n: nat,
)
    requires
        n <= found.len(),
    ensures
        ({
            let places = kept(fields, models, found, n);
            let results = collect(fields, models, found, n);
            &&& places.len() == results.len()
            &&& forall|k: int|
                0 <= k < places.len() ==> 0 <= (#[trigger] places[k]) < n && assemble(
                    fields,
                    models,
                    found[places[k]],
                ) == Ok::<ParseResultView, ParseError>(results[k])
            &&& forall|j: int, k: int|
                0 <= j < k < places.len() ==> (#[trigger] places[j]) < (#[trigger] places[k])
        }),
    decreases n,
{
    if n > 0 {
        lemma_collect_kept(fields, models, found, (n - 1) as nat);
    }
}

/// What is collected from all the matches came from the matches, in their
/// order.
pub proof fn lemma_collect_came_from(
    fields: Seq<FieldSpecView>,
    models: Map<Seq<char>, ConverterModel>,
    found: Seq<Seq<Option<CaptureView>>>,
    n: nat,
)
    requires
        n == found.len(),
    ensures
        came_from(collect(fields, models, found, n), fields, models, found),
{
    lemma_collect_kept(fields, models, found, n);
}

/// Once a field's text is refused, the match as a whole is refused with
/// that field's error.
pub proof fn lemma_values_fail(
    fields: Seq<FieldSpecView>,
    models: Map<Seq<char>, ConverterModel>,
    groups: Seq<Option<CaptureView>>,
    k: nat,
    n: nat,
)
    requires
        k <= n,
        values_of(fields, models, groups, k) is Err,
    ensures
        values_of(fields, models, groups, n) == values_of(fields, models, groups, k),
    decreases n,
{
    if n > k {
        lemma_values_fail(fields, models, groups, k, (n - 1) as nat);
    }
}

/// Conversion is all or nothing: a match gives its fields if and only if the
/// text of every field converts.
pub proof fn lemma_all_or_nothing(
    fields: Seq<FieldSpecView>,
    models: Map<Seq<char>, ConverterModel>,
    groups: Seq<Option<CaptureView>>,
    n: nat,
)
    requires
        n <= fields.len(),
    ensures
        values_of(fields, models, groups, n) is Ok <==> forall|k: int|
            0 <= k < n ==> value_of(
                #[trigger] fields[k],
                models,
                text_of(groups, fields[k].group_index),
            ) is Ok,
    decreases n,
{
    if n > 0 {
        lemma_all_or_nothing(fields, models, groups, (n - 1) as nat);
        if values_of(fields, models, groups, n) is Ok {
            assert forall|k: int| 0 <= k < n implies value_of(
                #[trigger] fields[k],
                models,
                text_of(groups, fields[k].group_index),
            ) is Ok by {}
        }
    }
}

/// Where every match converts, collecting gives one result for each match,
/// in the order of the matches.
pub proof fn lemma_collect_all(
    fields: Seq<FieldSpecView>,
    models: Map<Seq<char>, ConverterModel>,
    found: Seq<Seq<Option<CaptureView>>>,
    n: nat,
)
    requires
        n <= found.len(),
        forall|k: int| 0 <= k < n ==> assemble(fields, models, #[trigger] found[k]) is Ok,
    ensures
        collect(fields, models, found, n).len() == n,
        forall|k: int|
            0 <= k < n ==> Ok::<ParseResultView, ParseError>(
                #[trigger] collect(fields, models, found, n)[k],
            ) == assemble(fields, models, found[k]),
    decreases n,
{
    if n > 0 {
        lemma_collect_all(fields, models, found, (n - 1) as nat);
    }
}

/// A match gives one value for each field.
pub proof fn lemma_values_len(
    fields: Seq<FieldSpecView>,
    models: Map<Seq<char>, ConverterModel>,
    groups: Seq<Option<CaptureView>>,
    n: nat,
)
    ensures
        values_of(fields, models, groups, n) matches Ok(values) ==> values.len() == n,
    decreases n,
{
    if n > 0 {
        lemma_values_len(fields, models, groups, (n - 1) as nat);
    }
}

/// The fields of a match are cut from the text in which the capture groups
/// of the match lie.
pub proof fn lemma_assemble_cut(
    fields: Seq<FieldSpecView>,
    models: Map<Seq<char>, ConverterModel>,
    groups: Seq<Option<CaptureView>>,
    text: Seq<char>,
)
    requires
        captures_in(groups, text),
    ensures
        assemble(fields, models, groups) matches Ok(result) ==> result.cut_from(text),
{
    if let Ok(result) = assemble(fields, models, groups) {
        assert forall|i: int| 0 <= i < result.fixed.len() implies {
            &&& 0 <= (#[trigger] result.spans[i]).0 <= result.spans[i].1 <= encode_utf8(text).len()
            &&& encode_utf8(result.fixed[i]) == encode_utf8(text).subrange(
                result.spans[i].0,
                result.spans[i].1,
            )
        } by {}
    }
}

/// A parser as a mathematical value: its two patterns, whether it matches
/// without regard to case, its fields, and what its converters do.
pub struct ParserModel {
    pub exact: Seq<char>,
    pub search: Seq<char>,
    pub case_insensitive: bool,
    pub fields: Seq<FieldSpecView>,
    pub converters: Map<Seq<char>, ConverterModel>,
}

impl ParserModel {
    /// What reading the whole of `text` gives: the fields of the match of the
    /// anchored pattern, if there is one and every field converts.
    pub open spec fn parse(self, text: Seq<char>) -> Option<ParseResultView> {
        match regex_first(self.exact, self.case_insensitive, text) {
            Some(groups) => match assemble(self.fields, self.converters, groups) {
                Ok(result) => Some(result),
                Err(_) => None,
            },
            None => None,
        }
    }

    /// What searching in `text` gives: the fields of the first match of the
    /// pattern without anchors, if there is one and every field converts.
    pub open spec fn search(self, text: Seq<char>) -> Option<ParseResultView> {
        match regex_first(self.search, self.case_insensitive, text) {
            Some(groups) => match assemble(self.fields, self.converters, groups) {
                Ok(result) => Some(result),
                Err(_) => None,
            },
            None => None,
        }
    }

    /// The successive matches of the pattern without anchors in `text`.
    pub open spec fn matches(self, text: Seq<char>) -> Seq<Seq<Option<CaptureView>>> {
        regex_all(self.search, self.case_insensitive, text)
    }

    /// What collecting all matches in `text` gives: the fields of each of the
    /// successive matches of the pattern without anchors, from left to
    /// right, but for the matches of which some field does not convert.
    pub open spec fn findall(self, text: Seq<char>) -> Seq<ParseResultView> {
        let found = self.matches(text);
        collect(self.fields, self.converters, found, found.len())
    }
}

/// The parser that `format` compiles to, matching with or without regard to
/// case, with the converters `models`. There is none where the template is
/// in error, and where one of its two patterns is no regular expression.
pub open spec fn compiled(
    format: Seq<char>,
    case_sensitive: bool,
    models: Map<Seq<char>, ConverterModel>,
) -> Option<ParserModel> {
    match compile(format, models) {
        Ok(pattern) => if regex_accepts(pattern.exact, !case_sensitive) && regex_accepts(
            pattern.search,
            !case_sensitive,
        ) {
            Some(
                ParserModel {
                    exact: pattern.exact,
                    search: pattern.search,
                    case_insensitive: !case_sensitive,
                    fields: pattern.fields,
                    converters: models,
                },
            )
        } else {
            None
        },
        Err(_) => None,
    }
}

/// The outcome of reading one match as a mathematical value.
pub open spec fn assembled_view(r: Result<ParseResult, ParseError>) -> Result<
    ParseResultView,
    ParseError,
> {
    match r {
        Ok(result) => Ok(result@),
        Err(e) => Err(e),
    }
}

/// An optional result as a mathematical value.
pub open spec fn result_view(r: Option<ParseResult>) -> Option<ParseResultView> {
    match r {
        Some(result) => Some(result@),
        None => None,
    }
}

/// The results as mathematical values, in order.
pub open spec fn result_views(results: Seq<ParseResult>) -> Seq<ParseResultView> {
    Seq::new(results.len(), |i: int| results[i]@)
}

/// A compiled template: two regular expressions, the table of the fields,
/// and the converters of the fields' types.
pub struct Parser {
    pattern: regex::Regex,
    search_pattern: regex::Regex,
    fields: Vec<FieldSpec>,
    registry: Registry,
}

impl View for Parser {
    type V = ParserModel;

    closed spec fn view(&self) -> ParserModel {
        ParserModel {
            exact: regex_source(self.pattern)->0.pattern,
            search: regex_source(self.search_pattern)->0.pattern,
            case_insensitive: regex_source(self.pattern)->0.case_insensitive,
            fields: field_views(self.fields@),
            converters: self.registry.models(),
        }
    }
}

impl Parser {
    #[verifier::type_invariant]
    spec fn consistent(self) -> bool {
        &&& regex_source(self.pattern) is Some
        &&& regex_source(self.search_pattern) is Some
        &&& regex_source(self.search_pattern)->0.case_insensitive == regex_source(
            self.pattern,
        )->0.case_insensitive
        &&& regex_source(self.pattern)->0.pattern == seq!['^'] + regex_source(
            self.search_pattern,
        )->0.pattern + seq!['$']
        &&& groups_in_order(field_views(self.fields@))
        &&& tags_known(field_views(self.fields@), self.registry.models())
    }

    /// Compiles `format` with the built-in converters and with those of
    /// `extra_types` laid over them.
    ///
    /// Fails with `InvalidFormat` where the template is in error and where
    /// one of its patterns is no regular expression.
    pub fn new_with_types(format: &str, case_sensitive: bool, extra_types: Registry) -> (r: Result<
        Parser,
        ParseError,
    >)
        ensures
            match r {
                Ok(parser) => Some(parser@) == compiled(
                    format@,
                    case_sensitive,
                    builtin_models().union_prefer_right(extra_types.models()),
                ),
                Err(e) => e == ParseError::InvalidFormat && compiled(
                    format@,
                    case_sensitive,
                    builtin_models().union_prefer_right(extra_types.models()),
                ) is None,
            },
    {
        let registry = Registry::with_builtin(extra_types);
        proof {
            lemma_compile_shape(format@, registry.models());
        }
        let compiled = match parse_format(format, &registry) {
            Ok(compiled) => compiled,
            Err(_) => {
                return Err(ParseError::InvalidFormat);
            },
        };
        let pattern = match regex_build(compiled.exact.as_str(), !case_sensitive) {
            Ok(pattern) => pattern,
            Err(_) => {
                return Err(ParseError::InvalidFormat);
            },
        };
        let search_pattern = match regex_build(compiled.search.as_str(), !case_sensitive) {
            Ok(search_pattern) => search_pattern,
            Err(_) => {
                return Err(ParseError::InvalidFormat);
            },
        };
        Ok(Parser { pattern, search_pattern, fields: compiled.fields, registry })
    }

    /// Compiles `format` with the built-in converters.
    ///
    /// Fails with `InvalidFormat` where the template is in error and where
    /// one of its patterns is no regular expression.
    pub fn new(format: &str, case_sensitive: bool) -> (r: Result<Parser, ParseError>)
        ensures
            match r {
                Ok(parser) => Some(parser@) == compiled(format@, case_sensitive, builtin_models()),
                Err(e) => e == ParseError::InvalidFormat && compiled(
                    format@,
                    case_sensitive,
                    builtin_models(),
                ) is None,
            },
    {
        let none = Registry::new();
        assert(builtin_models().union_prefer_right(none.models()) =~= builtin_models());
        Parser::new_with_types(format, case_sensitive, none)
    }

    /// The fields of the template, in the order in which it declares them.
    ///
    /// In every parser the first field sits in capture group one, the second
    /// in group two, and so on; each type tag of a field has its converter;
    /// and the pattern for a whole text is the pattern for a part of a text
    /// between the two anchors.
    pub fn fields(&self) -> (r: &Vec<FieldSpec>)
        ensures
            field_views(r@) == self@.fields,
            groups_in_order(self@.fields),
            tags_known(self@.fields, self@.converters),
            self@.exact == seq!['^'] + self@.search + seq!['$'],
    {
        proof {
            use_type_invariant(self);
        }
        &self.fields
    }

    /// Reads the fields out of the capture groups of one match. `groups`
    /// holds the whole match first and then the groups in the order of their
    /// opening parentheses.
    ///
    /// Fails with the error of the first field whose text its converter
    /// refuses.
    pub fn process_captures(&self, groups: &Vec<Option<Capture>>) -> (r: Result<
        ParseResult,
        ParseError,
    >)
        ensures
            assembled_view(r) == assemble(self@.fields, self@.converters, group_views(groups@)),
    {
        let ghost fields = field_views(self.fields@);
        let ghost models = self.registry.models();
        let ghost found = group_views(groups@);
        let mut fixed: Vec<String> = Vec::new();
        let mut named: Vec<(String, String)> = Vec::new();
        let mut spans: Vec<(usize, usize)> = Vec::new();
        let mut converted: Vec<Value> = Vec::new();
        let mut i: usize = 0;
        while i < self.fields.len()
            invariant
                i <= self.fields.len(),
                fields == field_views(self.fields@),
                models == self.registry.models(),
                found == group_views(groups@),
                fixed@.len() == i,
                named@.len() == i,
                spans@.len() == i,
                converted@.len() == i,
                forall|j: int|
                    0 <= j < i ==> (#[trigger] fixed@[j])@ == text_of(found, fields[j].group_index),
                forall|j: int|
                    0 <= j < i ==> (#[trigger] named@[j]).0@ == fields[j].identifier && named@[j].1@
                        == text_of(found, fields[j].group_index),
                forall|j: int|
                    0 <= j < i ==> ((#[trigger] spans@[j]).0 as int, spans@[j].1 as int) == span_of(
                        found,
                        fields[j].group_index,
                    ),
                values_of(fields, models, found, i as nat) is Ok,
                values_of(fields, models, found, i as nat)->Ok_0 == Seq::new(
                    i as nat,
                    |j: int| converted@[j]@,
                ),
            decreases self.fields.len() - i,
        {
            let field = &self.fields[i];
            let group = field.group_index;
            let mut raw = String::new();
            let mut span: (usize, usize) = (0, 0);
            if group < groups.len() {
                assert(found[group as int] == match groups@[group as int] {
                    Some(capture) => Some(capture@),
                    None => None,
                });
                match &groups[group] {
                    Some(capture) => {
                        raw = capture.text.clone();
                        span = (capture.start, capture.end);
                    },
                    None => {},
                }
            }
            let plain = Value::Text(raw.clone());
            let value = match &field.type_tag {
                Some(tag) => match self.registry.get(tag.as_str()) {
                    Some(converter) => match converter.convert(raw.as_str()) {
                        Ok(value) => value,
                        Err(e) => {
                            proof {
                                assert(values_of(fields, models, found, (i + 1) as nat) == Err::<
                                    Seq<ValueView>,
                                    ParseError,
                                >(e));
                                lemma_values_fail(
                                    fields,
                                    models,
                                    found,
                                    (i + 1) as nat,
                                    fields.len(),
                                );
                            }
                            return Err(e);
                        },
                    },
                    None => plain,
                },
                None => plain,
            };
            fixed.push(raw.clone());
            named.push((field.identifier.clone(), raw));
            spans.push(span);
            converted.push(value);
            i += 1;
        }
        let result = ParseResult { fixed, named, spans, converted };
        proof {
            let expected = assemble(fields, models, found)->Ok_0;
            assert(result@.fixed == expected.fixed);
            assert(result@.named == expected.named);
            assert(result@.spans == expected.spans);
        }
        Ok(result)
    }

    /// Reads `text` as a whole. Gives the fields if the whole text follows
    /// the template and every field converts, and nothing otherwise.
    pub fn parse(&self, text: &str) -> (r: Option<ParseResult>)
        ensures
            result_view(r) == self@.parse(text@),
            r matches Some(result) ==> result@.cut_from(text@),
    {
        proof {
            use_type_invariant(self);
        }
        match regex_captures(&self.pattern, text) {
            Some(groups) => {
                proof {
                    lemma_assemble_cut(
                        self@.fields,
                        self@.converters,
                        group_views(groups@),
                        text@,
                    );
                }
                match self.process_captures(&groups) {
                    Ok(result) => Some(result),
                    Err(_) => None,
                }
            },
            None => None,
        }
    }

    /// Looks for the template in `text`. Gives the fields of the first part
    /// of the text that follows the template, if there is one and every
    /// field of it converts, and nothing otherwise.
    pub fn search(&self, text: &str) -> (r: Option<ParseResult>)
        ensures
            result_view(r) == self@.search(text@),
            r matches Some(result) ==> result@.cut_from(text@),
    {
        proof {
            use_type_invariant(self);
        }
        match regex_captures(&self.search_pattern, text) {
            Some(groups) => {
                proof {
                    lemma_assemble_cut(
                        self@.fields,
                        self@.converters,
                        group_views(groups@),
                        text@,
                    );
                }
                match self.process_captures(&groups) {
                    Ok(result) => Some(result),
                    Err(_) => None,
                }
            },
            None => None,
        }
    }

    /// Collects every part of `text` that follows the template, from left to
    /// right and without overlap. A part of which some field does not
    /// convert is left out.
    ///
    /// The matches from which the results are read come one after the other
    /// and do not overlap, and the results keep the order of their matches.
    pub fn findall(&self, text: &str) -> (r: Vec<ParseResult>)
        ensures
            result_views(r@) == self@.findall(text@),
            forall|k: int| 0 <= k < r@.len() ==> (#[trigger] r@[k])@.cut_from(text@),
            apart(self@.matches(text@)),
            came_from(result_views(r@), self@.fields, self@.converters, self@.matches(text@)),
    {
        proof {
            use_type_invariant(self);
        }
        let found = regex_captures_all(&self.search_pattern, text);
        let ghost all = all_found_view(found@);
        let ghost fields = self@.fields;
        let ghost models = self@.converters;
        proof {
            lemma_collect_came_from(fields, models, all, all.len());
        }
        let mut results: Vec<ParseResult> = Vec::new();
        let mut i: usize = 0;
        while i < found.len()
            invariant
                i <= found.len(),
                all == all_found_view(found@),
                fields == self@.fields,
                models == self@.converters,
                forall|k: int|
                    0 <= k < found@.len() ==> captures_in(
                        #[trigger] group_views(found@[k]@),
                        text@,
                    ),
                result_views(results@) == collect(fields, models, all, i as nat),
                forall|k: int|
                    0 <= k < results@.len() ==> (#[trigger] results@[k])@.cut_from(text@),
            decreases found.len() - i,
        {
            proof {
                lemma_assemble_cut(fields, models, group_views(found@[i as int]@), text@);
            }
            match self.process_captures(&found[i]) {
                Ok(result) => {
                    results.push(result);
                },
                Err(_) => {},
            }
            i += 1;
        }
        results
    }
}

/// Reads `text` as a whole against `format`, without regard to case and with
/// the built-in converters. Gives nothing where the template is in error.
pub fn parse(format: &str, text: &str) -> (r: Option<ParseResult>)
    ensures
        result_view(r) == match compiled(format@, false, builtin_models()) {
            Some(parser) => parser.parse(text@),
            None => None,
        },
        r matches Some(result) ==> result@.cut_from(text@),
{
    match Parser::new(format, false) {
        Ok(parser) => parser.parse(text),
        Err(_) => None,
    }
}

/// Looks for `format` in `text`, without regard to case and with the
/// built-in converters. Gives nothing where the template is in error.
pub fn search(format: &str, text: &str) -> (r: Option<ParseResult>)
    ensures
        result_view(r) == match compiled(format@, false, builtin_models()) {
            Some(parser) => parser.search(text@),
            None => None,
        },
        r matches Some(result) ==> result@.cut_from(text@),
{
    match Parser::new(format, false) {
        Ok(parser) => parser.search(text),
        Err(_) => None,
    }
}

/// Collects every part of `text` that follows `format`, without regard to
/// case and with the built-in converters. Gives nothing where the template
/// is in error.
pub fn findall(format: &str, text: &str) -> (r: Vec<ParseResult>)
    ensures
        result_views(r@) == match compiled(format@, false, builtin_models()) {
            Some(parser) => parser.findall(text@),
            None => Seq::empty(),
        },
        forall|k: int| 0 <= k < r@.len() ==> (#[trigger] r@[k])@.cut_from(text@),
        compiled(format@, false, builtin_models()) matches Some(parser) ==> apart(
            parser.matches(text@),
        ) && came_from(
            result_views(r@),
            parser.fields,
            parser.converters,
            parser.matches(text@),
        ),
{
    match Parser::new(format, false) {
        Ok(parser) => parser.findall(text),
        Err(_) => Vec::new(),
    }
}

/// Reads `text` as a whole against `format`, without regard to case, with
/// the built-in converters and with those of `extra_types` laid over them.
/// Gives nothing where the template is in error.
pub fn parse_with_types(format: &str, text: &str, extra_types: Registry) -> (r: Option<ParseResult>)
    ensures
        result_view(r) == match compiled(
            format@,
            false,
            builtin_models().union_prefer_right(extra_types.models()),
        ) {
            Some(parser) => parser.parse(text@),
            None => None,
        },
        r matches Some(result) ==> result@.cut_from(text@),
{
    match Parser::new_with_types(format, false, extra_types) {
        Ok(parser) => parser.parse(text),
        Err(_) => None,
    }
}

/// Looks for `format` in `text`, without regard to case, with the built-in
/// converters and with those of `extra_types` laid over them. Gives nothing
/// where the template is in error.
pub fn search_with_types(format: &str, text: &str, extra_types: Registry) -> (r: Option<
    ParseResult,
>)
    ensures
        result_view(r) == match compiled(
            format@,
            false,
            builtin_models().union_prefer_right(extra_types.models()),
        ) {
            Some(parser) => parser.search(text@),
            None => None,
        },
        r matches Some(result) ==> result@.cut_from(text@),
{
    match Parser::new_with_types(format, false, extra_types) {
        Ok(parser) => parser.search(text),
        Err(_) => None,
    }
}

/// Collects every part of `text` that follows `format`, without regard to
/// case, with the built-in converters and with those of `extra_types` laid
/// over them. Gives nothing where the template is in error.
pub fn findall_with_types(format: &str, text: &str, extra_types: Registry) -> (r: Vec<ParseResult>)
    ensures
        result_views(r@) == match compiled(
            format@,
            false,
            builtin_models().union_prefer_right(extra_types.models()),
        ) {
            Some(parser) => parser.findall(text@),
            None => Seq::empty(),
        },
        forall|k: int| 0 <= k < r@.len() ==> (#[trigger] r@[k])@.cut_from(text@),
        compiled(
            format@,
            false,
            builtin_models().union_prefer_right(extra_types.models()),
        ) matches Some(parser) ==> apart(parser.matches(text@)) && came_from(
            result_views(r@),
            parser.fields,
            parser.converters,
            parser.matches(text@),
        ),
{
    match Parser::new_with_types(format, false, extra_types) {
        Ok(parser) => parser.findall(text),
        Err(_) => Vec::new(),
    }
}

} // verus!
