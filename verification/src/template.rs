//! The template compiler: from a template to the regular expressions that
//! match it and the table of its fields.
//!
//! A template is literal text with fields in braces: `{}`, `{name}`,
//! `{:type}` or `{name:type}`. A doubled brace stands for the brace itself.

use vstd::prelude::*;
use vstd::string::StringExecFns;
use crate::converter::{ConverterModel, TypeConverter};
use crate::error::ParseError;
use crate::registry::Table;
use crate::text::{decimal_digits, decimal_string, flatten, flatten_name, same_text, to_chars};

verus! {

/// One field of a template.
#[derive(Debug, Clone, PartialEq, Eq)]
pub struct FieldSpec {
    /// The name given in the template, flattened; for a field without a name,
    /// the field's place among all fields of the template, counted from zero
    /// and written in decimal.
    pub identifier: String,
    /// The type tag given in the template, if any.
    pub type_tag: Option<String>,
    /// The capture group that holds the field's text; groups count from one.
    pub group_index: usize,
}

/// A field of a template as a mathematical value.
pub struct FieldSpecView {
    pub identifier: Seq<char>,
    pub type_tag: Option<Seq<char>>,
    pub group_index: int,
}

impl View for FieldSpec {
    type V = FieldSpecView;

    open spec fn view(&self) -> FieldSpecView {
        FieldSpecView {
            identifier: self.identifier@,
            type_tag: match self.type_tag {
                Some(tag) => Some(tag@),
                None => None,
            },
            group_index: self.group_index as int,
        }
    }
}

/// The fields as mathematical values, in order.
pub open spec fn field_views(fields: Seq<FieldSpec>) -> Seq<FieldSpecView> {
    Seq::new(fields.len(), |i: int| fields[i]@)
}

/// A compiled template.
#[derive(Debug, Clone, PartialEq, Eq)]
pub struct Pattern {
    /// The regular expression that a whole text has to match.
    pub exact: String,
    /// The regular expression that a part of a text has to match.
    pub search: String,
    /// The fields, in the order in which the template declares them.
    pub fields: Vec<FieldSpec>,
}

/// A compiled template as a mathematical value.
pub struct PatternView {
    pub exact: Seq<char>,
    pub search: Seq<char>,
    pub fields: Seq<FieldSpecView>,
}

impl View for Pattern {
    type V = PatternView;

    open spec fn view(&self) -> PatternView {
        PatternView { exact: self.exact@, search: self.search@, fields: field_views(self.fields@) }
    }
}

/// The capture group of the last of the first `n` fields that carries the
/// identifier `identifier`.
pub open spec fn group_named(fields: Seq<FieldSpecView>, identifier: Seq<char>, n: int) -> Option<
    int,
>
    decreases n,
{
    if n <= 0 {
        None
    } else if fields[n - 1].identifier == identifier {
        Some(fields[n - 1].group_index)
    } else {
        group_named(fields, identifier, n - 1)
    }
}

impl Pattern {
    /// The capture group of the field named `name`. The name may be given as
    /// the template has it or flattened; of two fields with one identifier
    /// the later one answers.
    pub fn group_of(&self, name: &str) -> (r: Option<usize>)
        ensures
            match r {
                Some(group) => group_named(
                    self@.fields,
                    flatten_name(name@),
                    self@.fields.len() as int,
                ) == Some(group as int),
                None => group_named(self@.fields, flatten_name(name@), self@.fields.len() as int)
                    is None,
            },
    {
        let identifier = flatten(name);
        let ghost fields = self@.fields;
        let mut i: usize = self.fields.len();
        while i > 0
            invariant
                i <= self.fields.len(),
                fields == field_views(self.fields@),
                identifier@ == flatten_name(name@),
                group_named(fields, identifier@, fields.len() as int) == group_named(
                    fields,
                    identifier@,
                    i as int,
                ),
            decreases i,
        {
            i -= 1;
            if same_text(self.fields[i].identifier.as_str(), identifier.as_str()) {
                return Some(self.fields[i].group_index);
            }
        }
        None
    }
}

/// Whether `c` has a meaning of its own in a regular expression.
pub open spec fn is_meta(c: char) -> bool {
    c == '\\' || c == '.' || c == '+' || c == '*' || c == '?' || c == '(' || c == ')' || c == '|'
        || c == '[' || c == ']' || c == '{' || c == '}' || c == '^' || c == '$' || c == '#' || c
        == '&' || c == '-' || c == '~'
}

/// Whether `c` is one of the delimiters around which a text may hold blanks
/// that the template does not show: `,`, `=`, `+` and `-`.
pub open spec fn is_delimiter(c: char) -> bool {
    c == ',' || c == '=' || c == '+' || c == '-'
}

/// The regular expression that matches the character `c` and nothing else.
pub open spec fn escaped(c: char) -> Seq<char> {
    if is_meta(c) {
        seq!['\\', c]
    } else {
        seq![c]
    }
}

/// The regular expression for any run of blanks, the empty one too.
pub open spec fn blanks() -> Seq<char> {
    seq!['\\', 's', '*']
}

/// The regular expression for one character of literal text: the character
/// itself, and around a delimiter any run of blanks.
pub open spec fn literal(c: char) -> Seq<char> {
    if is_delimiter(c) {
        blanks() + escaped(c) + blanks()
    } else {
        escaped(c)
    }
}

/// The regular expression that a field without a type follows: one character
/// or more, as few as the rest of the template allows.
pub open spec fn default_fragment() -> Seq<char> {
    seq!['.', '+', '?']
}

/// The regular expression that a field with the type tag `tag` follows: that
/// of the tag's converter, or the default where the tag is empty or the
/// converter has none. `None` for a tag that no converter answers to.
pub open spec fn fragment_for(tag: Seq<char>, models: Map<Seq<char>, ConverterModel>) -> Option<
    Seq<char>,
> {
    if tag.len() == 0 {
        Some(default_fragment())
    } else if models.contains_key(tag) {
        match models[tag].pattern {
            Some(pattern) => Some(pattern),
            None => Some(default_fragment()),
        }
    } else {
        None
    }
}

/// The identifier of the field named `name` that `ordinal` fields precede.
pub open spec fn identifier_for(name: Seq<char>, ordinal: nat) -> Seq<char> {
    if name.len() == 0 {
        decimal_digits(ordinal)
    } else {
        flatten_name(name)
    }
}

/// What the compiler holds while it reads a template from left to right.
pub struct Scan {
    /// Whether the reader is inside a field.
    pub in_field: bool,
    /// Whether, inside a field, the reader is behind the colon.
    pub in_type: bool,
    /// The name of the field that is being read, so far.
    pub name: Seq<char>,
    /// The type tag of the field that is being read, so far.
    pub tag: Seq<char>,
    /// The regular expression for what has been read.
    pub pattern: Seq<char>,
    /// The fields that have been closed.
    pub fields: Seq<FieldSpecView>,
}

impl Scan {
    /// The state before the first character.
    pub open spec fn start() -> Scan {
        Scan {
            in_field: false,
            in_type: false,
            name: Seq::empty(),
            tag: Seq::empty(),
            pattern: Seq::empty(),
            fields: Seq::empty(),
        }
    }

    /// The state with `more` added to the regular expression.
    pub open spec fn emit(self, more: Seq<char>) -> Scan {
        Scan {
            in_field: self.in_field,
            in_type: self.in_type,
            name: self.name,
            tag: self.tag,
            pattern: self.pattern + more,
            fields: self.fields,
        }
    }

    /// The state at the start of a new field.
    pub open spec fn open(self) -> Scan {
        Scan {
            in_field: true,
            in_type: false,
            name: Seq::empty(),
            tag: Seq::empty(),
            pattern: self.pattern,
            fields: self.fields,
        }
    }

    /// The state behind the colon of a field.
    pub open spec fn colon(self) -> Scan {
        Scan {
            in_field: self.in_field,
            in_type: true,
            name: self.name,
            tag: self.tag,
            pattern: self.pattern,
            fields: self.fields,
        }
    }

    /// The state with `c` added to the field's name, or behind the colon to
    /// its type tag.
    pub open spec fn take(self, c: char) -> Scan {
        Scan {
            in_field: self.in_field,
            in_type: self.in_type,
            name: if self.in_type {
                self.name
            } else {
                self.name.push(c)
            },
            tag: if self.in_type {
                self.tag.push(c)
            } else {
                self.tag
            },
            pattern: self.pattern,
            fields: self.fields,
        }
    }

    /// The field that is being read, as it is entered in the table.
    pub open spec fn field(self) -> FieldSpecView {
        FieldSpecView {
            identifier: identifier_for(self.name, self.fields.len()),
            type_tag: if self.tag.len() == 0 {
                None
            } else {
                Some(self.tag)
            },
            group_index: self.fields.len() as int + 1,
        }
    }

    /// The state behind the closing brace of a field: the field is entered in
    /// the table and its capture group is added to the regular expression.
    /// A type tag that no converter answers to is an error.
    pub open spec fn close(self, models: Map<Seq<char>, ConverterModel>) -> Result<
        Scan,
        ParseError,
    > {
        match fragment_for(self.tag, models) {
            Some(fragment) => Ok(
                Scan {
                    in_field: false,
                    in_type: false,
                    name: self.name,
                    tag: self.tag,
                    pattern: self.pattern + seq!['('] + fragment + seq![')'],
                    fields: self.fields.push(self.field()),
                },
            ),
            None => Err(ParseError::InvalidFormat),
        }
    }
}

/// Whether the brace at index `i` of `template` is followed by a brace of the
/// same kind.
pub open spec fn doubled(template: Seq<char>, i: int) -> bool {
    i + 1 < template.len() && template[i + 1] == template[i]
}

/// The state in which the compiler ends when it reads `template` from index
/// `i` on, starting in state `state`; or the error on which it stops.
///
/// A doubled brace gives the brace itself as literal text, inside a field
/// too. A single `{` opens a field, and is an error inside a field. A single
/// `}` closes a field, and is an error outside one. Inside a field the first
/// colon parts the name from the type tag, and a later colon belongs to the
/// type tag. Outside, each character is literal text. A template that ends
/// inside a field is an error.
pub open spec fn scan(
    template: Seq<char>,
    i: int,
    state: Scan,
    models: Map<Seq<char>, ConverterModel>,
) -> Result<Scan, ParseError>
    decreases template.len() - i,
{
    if i < 0 || i >= template.len() {
        if state.in_field {
            Err(ParseError::InvalidFormat)
        } else {
            Ok(state)
        }
    } else if template[i] == '{' {
        if doubled(template, i) {
            scan(template, i + 2, state.emit(seq!['\\', '{']), models)
        } else if state.in_field {
            Err(ParseError::InvalidFormat)
        } else {
            scan(template, i + 1, state.open(), models)
        }
    } else if template[i] == '}' {
        if doubled(template, i) {
            scan(template, i + 2, state.emit(seq!['\\', '}']), models)
        } else if state.in_field {
            match state.close(models) {
                Ok(next) => scan(template, i + 1, next, models),
                Err(e) => Err(e),
            }
        } else {
            Err(ParseError::InvalidFormat)
        }
    } else if state.in_field {
        if template[i] == ':' && !state.in_type {
            scan(template, i + 1, state.colon(), models)
        } else {
            scan(template, i + 1, state.take(template[i]), models)
        }
    } else {
        scan(template, i + 1, state.emit(literal(template[i])), models)
    }
}

/// What `template` compiles to with the converters `models`: the pattern for
/// a part of a text, the same pattern between `^` and `$` for a whole text,
/// and the table of fields; or the error in the template.
pub open spec fn compile(template: Seq<char>, models: Map<Seq<char>, ConverterModel>) -> Result<
    PatternView,
    ParseError,
> {
    match scan(template, 0, Scan::start(), models) {
        Ok(end) => Ok(
            PatternView {
                exact: seq!['^'] + end.pattern + seq!['$'],
                search: end.pattern,
                fields: end.fields,
            },
        ),
        Err(e) => Err(e),
    }
}

/// Whether each field of the table sits in the capture group of its place:
/// the first field in group one, the second in group two, and so on.
pub open spec fn groups_in_order(fields: Seq<FieldSpecView>) -> bool {
    forall|k: int| 0 <= k < fields.len() ==> (#[trigger] fields[k]).group_index == k + 1
}

/// Whether some converter of `models` answers to the type tag of each field
/// that has one.
pub open spec fn tags_known(
    fields: Seq<FieldSpecView>,
    models: Map<Seq<char>, ConverterModel>,
) -> bool {
    forall|k: int|
        0 <= k < fields.len() ==> ((#[trigger] fields[k]).type_tag matches Some(tag)
            ==> models.contains_key(tag))
}

/// The compiler numbers the capture groups in the order of the fields, and
/// enters no field whose type tag no converter answers to.
pub proof fn lemma_scan_fields(
    template: Seq<char>,
    i: int,
    state: Scan,
    models: Map<Seq<char>, ConverterModel>,
)
    requires
        groups_in_order(state.fields),
        tags_known(state.fields, models),
    ensures
        scan(template, i, state, models) matches Ok(end) ==> groups_in_order(end.fields)
            && tags_known(end.fields, models),
    decreases template.len() - i,
{
    if i < 0 || i >= template.len() {
    } else if template[i] == '{' {
        if doubled(template, i) {
            lemma_scan_fields(template, i + 2, state.emit(seq!['\\', '{']), models);
        } else if !state.in_field {
            lemma_scan_fields(template, i + 1, state.open(), models);
        }
    } else if template[i] == '}' {
        if doubled(template, i) {
            lemma_scan_fields(template, i + 2, state.emit(seq!['\\', '}']), models);
        } else if state.in_field {
            if let Ok(next) = state.close(models) {
                lemma_scan_fields(template, i + 1, next, models);
            }
        }
    } else if state.in_field {
        if template[i] == ':' && !state.in_type {
            lemma_scan_fields(template, i + 1, state.colon(), models);
        } else {
            lemma_scan_fields(template, i + 1, state.take(template[i]), models);
        }
    } else {
        lemma_scan_fields(template, i + 1, state.emit(literal(template[i])), models);
    }
}

/// In every compiled template the capture groups follow the order of the
/// fields, some converter answers to each type tag, and the pattern for a
/// whole text is the pattern for a part of a text between the two anchors.
pub proof fn lemma_compile_shape(template: Seq<char>, models: Map<Seq<char>, ConverterModel>)
    ensures
        compile(template, models) matches Ok(pattern) ==> {
            &&& groups_in_order(pattern.fields)
            &&& tags_known(pattern.fields, models)
            &&& pattern.exact == seq!['^'] + pattern.search + seq!['$']
        },
{
    lemma_scan_fields(template, 0, Scan::start(), models);
}

/// The regular expression for the literal text that `template` holds from
/// index `i` on.
pub open spec fn literals_from(template: Seq<char>, i: int) -> Seq<char>
    decreases template.len() - i,
{
    if i < 0 || i >= template.len() {
        Seq::empty()
    } else {
        literal(template[i]) + literals_from(template, i + 1)
    }
}

/// Whether `template` holds no brace from index `i` on.
pub open spec fn brace_free(template: Seq<char>, i: int) -> bool {
    forall|k: int| i <= k < template.len() ==> template[k] != '{' && template[k] != '}'
}

/// Outside a field, text without braces is read as literal text, character
/// by character.
pub proof fn lemma_scan_literals(
    template: Seq<char>,
    i: int,
    state: Scan,
    models: Map<Seq<char>, ConverterModel>,
)
    requires
        0 <= i,
        !state.in_field,
        brace_free(template, i),
    ensures
        scan(template, i, state, models) == Ok::<Scan, ParseError>(
            state.emit(literals_from(template, i)),
        ),
    decreases template.len() - i,
{
    if i < template.len() {
        let next = state.emit(literal(template[i]));
        lemma_scan_literals(template, i + 1, next, models);
        assert(next.pattern + literals_from(template, i + 1) == state.pattern + literals_from(
            template,
            i,
        ));
    }
}

/// A template without braces compiles, has no field, and stands for itself:
/// its pattern is its own text as literal text.
pub proof fn lemma_compile_plain(template: Seq<char>, models: Map<Seq<char>, ConverterModel>)
    requires
        brace_free(template, 0),
    ensures
        compile(template, models) == Ok::<PatternView, ParseError>(
            PatternView {
                exact: seq!['^'] + literals_from(template, 0) + seq!['$'],
                search: literals_from(template, 0),
                fields: Seq::empty(),
            },
        ),
{
    lemma_scan_literals(template, 0, Scan::start(), models);
}

fn is_meta_char(c: char) -> (r: bool)
    ensures
        r == is_meta(c),
{
    c == '\\' || c == '.' || c == '+' || c == '*' || c == '?' || c == '(' || c == ')' || c == '|'
        || c == '[' || c == ']' || c == '{' || c == '}' || c == '^' || c == '$' || c == '#' || c
        == '&' || c == '-' || c == '~'
}

fn push_blanks(pattern: &mut String)
    ensures
        final(pattern)@ == old(pattern)@ + blanks(),
{
    pattern.push('\\');
    pattern.push('s');
    pattern.push('*');
}

fn push_escaped(pattern: &mut String, c: char)
    ensures
        final(pattern)@ == old(pattern)@ + escaped(c),
{
    if is_meta_char(c) {
        pattern.push('\\');
    }
    pattern.push(c);
}

/// Adds to `pattern` the regular expression for the literal character `c`.
pub fn push_literal(pattern: &mut String, c: char)
    ensures
        final(pattern)@ == old(pattern)@ + literal(c),
{
    if c == ',' || c == '=' || c == '+' || c == '-' {
        push_blanks(pattern);
        push_escaped(pattern, c);
        push_blanks(pattern);
    } else {
        push_escaped(pattern, c);
    }
}

/// The outcome of compiling as a mathematical value.
pub open spec fn compiled_view(r: Result<Pattern, ParseError>) -> Result<PatternView, ParseError> {
    match r {
        Ok(pattern) => Ok(pattern@),
        Err(e) => Err(e),
    }
}

/// Compiles `format` with the converters of `registry`.
///
/// Fails with `InvalidFormat` on a template with a brace out of place, on one
/// that ends inside a field, and on one with a type tag that no converter of
/// `registry` answers to.
pub fn parse_format<C: TypeConverter + ?Sized>(format: &str, registry: &Table<C>) -> (r: Result<
    Pattern,
    ParseError,
>)
    ensures
        compiled_view(r) == compile(format@, registry.models()),
        r matches Ok(pattern) ==> pattern@.exact == seq!['^'] + pattern@.search + seq!['$'],
        r matches Ok(pattern) ==> groups_in_order(pattern@.fields) && tags_known(
            pattern@.fields,
            registry.models(),
        ),
{
    let template = to_chars(format);
    let n = template.len();
    let ghost models = registry.models();
    let mut in_field = false;
    let mut in_type = false;
    let mut name = String::new();
    let mut tag = String::new();
    let mut pattern = String::new();
    let mut fields: Vec<FieldSpec> = Vec::new();
    let mut i: usize = 0;
    assert(field_views(fields@) == Seq::<FieldSpecView>::empty());
    while i < n
        invariant
            i <= n,
            n == template.len(),
            template@ == format@,
            models == registry.models(),
            fields.len() <= i,
            scan(
                template@,
                i as int,
                Scan {
                    in_field,
                    in_type,
                    name: name@,
                    tag: tag@,
                    pattern: pattern@,
                    fields: field_views(fields@),
                },
                models,
            ) == scan(template@, 0, Scan::start(), models),
        decreases n - i,
    {
        let ghost state = Scan {
            in_field,
            in_type,
            name: name@,
            tag: tag@,
            pattern: pattern@,
            fields: field_views(fields@),
        };
        let c = template[i];
        if c == '{' {
            if i + 1 < n && template[i + 1] == '{' {
                pattern.push('\\');
                pattern.push('{');
                assert(pattern@ == state.pattern + seq!['\\', '{']);
                i += 2;
            } else if in_field {
                return Err(ParseError::InvalidFormat);
            } else {
                in_field = true;
                in_type = false;
                name = String::new();
                tag = String::new();
                i += 1;
            }
        } else if c == '}' {
            if i + 1 < n && template[i + 1] == '}' {
                pattern.push('\\');
                pattern.push('}');
                assert(pattern@ == state.pattern + seq!['\\', '}']);
                i += 2;
            } else if in_field {
                let typed = !tag.as_str().is_empty();
                pattern.push('(');
                if typed {
                    match registry.get(tag.as_str()) {
                        Some(converter) => {
                            match converter.get_pattern() {
                                Some(fragment) => {
                                    pattern.append(fragment);
                                },
                                None => {
                                    pattern.push('.');
                                    pattern.push('+');
                                    pattern.push('?');
                                },
                            }
                        },
                        None => {
                            return Err(ParseError::InvalidFormat);
                        },
                    }
                } else {
                    pattern.push('.');
                    pattern.push('+');
                    pattern.push('?');
                }
                pattern.push(')');
                let ghost fragment = fragment_for(state.tag, models)->0;
                assert(pattern@ == state.pattern + seq!['('] + fragment + seq![')']);
                let identifier = if name.as_str().is_empty() {
                    decimal_string(fields.len())
                } else {
                    flatten(name.as_str())
                };
                let type_tag = if typed {
                    Some(tag.clone())
                } else {
                    None
                };
                let ghost before = fields@;
                let field = FieldSpec { identifier, type_tag, group_index: fields.len() + 1 };
                fields.push(field);
                assert(field_views(fields@) == field_views(before).push(state.field()));
                in_field = false;
                in_type = false;
                i += 1;
            } else {
                return Err(ParseError::InvalidFormat);
            }
        } else if in_field {
            if c == ':' && !in_type {
                in_type = true;
            } else if in_type {
                tag.push(c);
            } else {
                name.push(c);
            }
            i += 1;
        } else {
            push_literal(&mut pattern, c);
            i += 1;
        }
    }
    if in_field {
        return Err(ParseError::InvalidFormat);
    }
    let mut exact = String::new();
    exact.push('^');
    exact.append(pattern.as_str());
    exact.push('$');
    assert(exact@ == seq!['^'] + pattern@ + seq!['$']);
    proof {
        lemma_compile_shape(format@, models);
    }
    Ok(Pattern { exact, search: pattern, fields })
}

} // verus!
