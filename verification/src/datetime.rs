//! The converters for dates and times.
//!
//! Each converter owns a list of layouts in the notation of `chrono`. A text
//! is read under each layout in turn, and the first layout under which it
//! reads decides the value.

use vstd::prelude::*;
use crate::calendar::{
    chrono_date,
    chrono_datetime,
    chrono_datetime_utc,
    chrono_time,
    read_date,
    read_datetime,
    read_datetime_utc,
    read_time,
};
use crate::converter::{outcome_view, ConverterModel, TypeConverter};
use crate::error::ParseError;
use crate::text::to_chars;
use crate::value::{Value, ValueView};

verus! {

/// Whether `layout` asks for an offset from UTC at index `i`: `%z` or `%:z`
/// stands there.
pub open spec fn offset_at(layout: Seq<char>, i: int) -> bool {
    &&& 0 <= i
    &&& i + 1 < layout.len()
    &&& layout[i] == '%'
    &&& (layout[i + 1] == 'z' || (i + 2 < layout.len() && layout[i + 1] == ':' && layout[i + 2]
        == 'z'))
}

/// Whether `layout` asks for an offset from UTC somewhere.
pub open spec fn asks_offset(layout: Seq<char>) -> bool {
    exists|i: int| offset_at(layout, i)
}

/// The date and time that `text` gives under `layout`. A layout that asks for
/// an offset gives the moment in UTC; any other gives what is written.
pub open spec fn datetime_under(text: Seq<char>, layout: Seq<char>) -> Option<
    chrono::NaiveDateTime,
> {
    if asks_offset(layout) {
        chrono_datetime_utc(text, layout)
    } else {
        chrono_datetime(text, layout)
    }
}

/// The date and time that `text` gives under the first of `layouts`, from
/// index `from` on, under which it reads as one.
pub open spec fn first_datetime(text: Seq<char>, layouts: Seq<Seq<char>>, from: int) -> Option<
    chrono::NaiveDateTime,
>
    decreases layouts.len() - from,
{
    if from < 0 || from >= layouts.len() {
        None
    } else if datetime_under(text, layouts[from]) is Some {
        datetime_under(text, layouts[from])
    } else {
        first_datetime(text, layouts, from + 1)
    }
}

/// The date that `text` gives under the first of `layouts`, from index `from`
/// on, under which it reads as one.
pub open spec fn first_date(text: Seq<char>, layouts: Seq<Seq<char>>, from: int) -> Option<
    chrono::NaiveDate,
>
    decreases layouts.len() - from,
{
    if from < 0 || from >= layouts.len() {
        None
    } else if chrono_date(text, layouts[from]) is Some {
        chrono_date(text, layouts[from])
    } else {
        first_date(text, layouts, from + 1)
    }
}

/// The time of day that `text` gives under the first of `layouts`, from index
/// `from` on, under which it reads as one.
pub open spec fn first_time(text: Seq<char>, layouts: Seq<Seq<char>>, from: int) -> Option<
    chrono::NaiveTime,
>
    decreases layouts.len() - from,
{
    if from < 0 || from >= layouts.len() {
        None
    } else if chrono_time(text, layouts[from]) is Some {
        chrono_time(text, layouts[from])
    } else {
        first_time(text, layouts, from + 1)
    }
}

/// The first layout under which a text reads as a date with a time decides:
/// where the text reads under none of the layouts from `from` up to `k`, and
/// reads under layout `k`, the reading under layout `k` is the one found.
pub proof fn lemma_first_datetime(text: Seq<char>, layouts: Seq<Seq<char>>, from: int, k: int)
    requires
        0 <= from <= k < layouts.len(),
        forall|j: int| from <= j < k ==> datetime_under(text, #[trigger] layouts[j]) is None,
        datetime_under(text, layouts[k]) is Some,
    ensures
        first_datetime(text, layouts, from) == datetime_under(text, layouts[k]),
    decreases k - from,
{
    if from < k {
        lemma_first_datetime(text, layouts, from + 1, k);
    }
}

/// The first layout under which a text reads as a date decides.
pub proof fn lemma_first_date(text: Seq<char>, layouts: Seq<Seq<char>>, from: int, k: int)
    requires
        0 <= from <= k < layouts.len(),
        forall|j: int| from <= j < k ==> chrono_date(text, #[trigger] layouts[j]) is None,
        chrono_date(text, layouts[k]) is Some,
    ensures
        first_date(text, layouts, from) == chrono_date(text, layouts[k]),
    decreases k - from,
{
    if from < k {
        lemma_first_date(text, layouts, from + 1, k);
    }
}

/// The first layout under which a text reads as a time of day decides.
pub proof fn lemma_first_time(text: Seq<char>, layouts: Seq<Seq<char>>, from: int, k: int)
    requires
        0 <= from <= k < layouts.len(),
        forall|j: int| from <= j < k ==> chrono_time(text, #[trigger] layouts[j]) is None,
        chrono_time(text, layouts[k]) is Some,
    ensures
        first_time(text, layouts, from) == chrono_time(text, layouts[k]),
    decreases k - from,
{
    if from < k {
        lemma_first_time(text, layouts, from + 1, k);
    }
}

/// A text reads under none of the layouts exactly if no reading is found.
pub proof fn lemma_no_datetime(text: Seq<char>, layouts: Seq<Seq<char>>, from: int)
    requires
        0 <= from,
    ensures
        first_datetime(text, layouts, from) is None <==> forall|j: int|
            from <= j < layouts.len() ==> datetime_under(text, #[trigger] layouts[j]) is None,
    decreases layouts.len() - from,
{
    if from < layouts.len() {
        lemma_no_datetime(text, layouts, from + 1);
        if first_datetime(text, layouts, from) is None {
            assert forall|j: int| from <= j < layouts.len() implies datetime_under(
                text,
                #[trigger] layouts[j],
            ) is None by {
                if j > from {
                }
            }
        } else if datetime_under(text, layouts[from]) is None {
        }
    }
}

/// What `text` resolves to under `layouts`: a date with a time where some
/// layout gives one; failing that a date; failing that a time of day; and a
/// failed conversion where no layout gives anything.
pub open spec fn resolve(text: Seq<char>, layouts: Seq<Seq<char>>) -> Result<
    ValueView,
    ParseError,
> {
    if first_datetime(text, layouts, 0) is Some {
        Ok(ValueView::DateTime(first_datetime(text, layouts, 0)->0))
    } else if first_date(text, layouts, 0) is Some {
        Ok(ValueView::Date(first_date(text, layouts, 0)->0))
    } else if first_time(text, layouts, 0) is Some {
        Ok(ValueView::Time(first_time(text, layouts, 0)->0))
    } else {
        Err(ParseError::TypeConversionFailed)
    }
}

/// What `text` resolves to where only dates are looked for.
pub open spec fn resolve_date(text: Seq<char>, layouts: Seq<Seq<char>>) -> Result<
    ValueView,
    ParseError,
> {
    if first_date(text, layouts, 0) is Some {
        Ok(ValueView::Date(first_date(text, layouts, 0)->0))
    } else {
        Err(ParseError::TypeConversionFailed)
    }
}

/// What `text` resolves to where only times of day are looked for.
pub open spec fn resolve_time(text: Seq<char>, layouts: Seq<Seq<char>>) -> Result<
    ValueView,
    ParseError,
> {
    if first_time(text, layouts, 0) is Some {
        Ok(ValueView::Time(first_time(text, layouts, 0)->0))
    } else {
        Err(ParseError::TypeConversionFailed)
    }
}

/// The layouts as sequences of characters, in order.
pub open spec fn layout_views(layouts: Seq<&'static str>) -> Seq<Seq<char>> {
    Seq::new(layouts.len(), |i: int| layouts[i]@)
}

/// Decides whether `layout` asks for an offset from UTC.
pub fn has_offset(layout: &str) -> (r: bool)
    ensures
        r == asks_offset(layout@),
{
    let chars = to_chars(layout);
    let n = chars.len();
    let mut i: usize = 0;
    while i < n
        invariant
            i <= n,
            n == chars.len(),
            chars@ == layout@,
            forall|j: int| 0 <= j < i ==> !offset_at(layout@, j),
        decreases n - i,
    {
        if chars[i] == '%' && i + 1 < n {
            if chars[i + 1] == 'z' || (i + 2 < n && chars[i + 1] == ':' && chars[i + 2] == 'z') {
                assert(offset_at(layout@, i as int));
                return true;
            }
        }
        i += 1;
    }
    false
}

/// Reads `text` as a date with a time under each layout in turn and returns
/// the first reading.
pub fn find_datetime(text: &str, layouts: &[&'static str]) -> (r: Option<chrono::NaiveDateTime>)
    ensures
        r == first_datetime(text@, layout_views(layouts@), 0),
{
    let ghost views = layout_views(layouts@);
    let mut i: usize = 0;
    while i < layouts.len()
        invariant
            i <= layouts.len(),
            views == layout_views(layouts@),
            first_datetime(text@, views, 0) == first_datetime(text@, views, i as int),
        decreases layouts.len() - i,
    {
        let layout = layouts[i];
        let reading = if has_offset(layout) {
            read_datetime_utc(text, layout)
        } else {
            read_datetime(text, layout)
        };
        if reading.is_some() {
            return reading;
        }
        i += 1;
    }
    None
}

/// Reads `text` as a date under each layout in turn and returns the first
/// reading.
pub fn find_date(text: &str, layouts: &[&'static str]) -> (r: Option<chrono::NaiveDate>)
    ensures
        r == first_date(text@, layout_views(layouts@), 0),
{
    let ghost views = layout_views(layouts@);
    let mut i: usize = 0;
    while i < layouts.len()
        invariant
            i <= layouts.len(),
            views == layout_views(layouts@),
            first_date(text@, views, 0) == first_date(text@, views, i as int),
        decreases layouts.len() - i,
    {
        let layout = layouts[i];
        let reading = read_date(text, layout);
        if reading.is_some() {
            return reading;
        }
        i += 1;
    }
    None
}

/// Reads `text` as a time of day under each layout in turn and returns the
/// first reading.
pub fn find_time(text: &str, layouts: &[&'static str]) -> (r: Option<chrono::NaiveTime>)
    ensures
        r == first_time(text@, layout_views(layouts@), 0),
{
    let ghost views = layout_views(layouts@);
    let mut i: usize = 0;
    while i < layouts.len()
        invariant
            i <= layouts.len(),
            views == layout_views(layouts@),
            first_time(text@, views, 0) == first_time(text@, views, i as int),
        decreases layouts.len() - i,
    {
        let layout = layouts[i];
        let reading = read_time(text, layout);
        if reading.is_some() {
            return reading;
        }
        i += 1;
    }
    None
}

/// The families of notations for a date with a time.
#[derive(Debug, Clone, Copy, PartialEq, Eq, Structural)]
pub enum Family {
    /// Day first, or year first, with slashes: tag `tg`.
    Generic,
    /// Month first, with slashes: tag `ta`.
    American,
    /// As in the header of an e-mail: tag `te`.
    Email,
    /// As in the log of a web server: tag `th`.
    HttpLog,
    /// As in a system log: tag `ts`.
    Syslog,
    /// ISO 8601: tag `ti`.
    Iso,
}

/// The family that a type tag stands for.
pub open spec fn family_of(tag: Seq<char>) -> Option<Family> {
    if tag == seq!['t', 'g'] {
        Some(Family::Generic)
    } else if tag == seq!['t', 'a'] {
        Some(Family::American)
    } else if tag == seq!['t', 'e'] {
        Some(Family::Email)
    } else if tag == seq!['t', 'h'] {
        Some(Family::HttpLog)
    } else if tag == seq!['t', 's'] {
        Some(Family::Syslog)
    } else if tag == seq!['t', 'i'] {
        Some(Family::Iso)
    } else {
        None
    }
}

/// Finds the family that a type tag stands for.
pub fn family(tag: &str) -> (r: Option<Family>)
    ensures
        r == family_of(tag@),
{
    let chars = to_chars(tag);
    if chars.len() != 2 || chars[0] != 't' {
        return None;
    }
    let c = chars[1];
    assert(tag@ == seq!['t', c]);
    if c == 'g' {
        Some(Family::Generic)
    } else if c == 'a' {
        Some(Family::American)
    } else if c == 'e' {
        Some(Family::Email)
    } else if c == 'h' {
        Some(Family::HttpLog)
    } else if c == 's' {
        Some(Family::Syslog)
    } else if c == 'i' {
        Some(Family::Iso)
    } else {
        None
    }
}

/// The layouts for dates with day or year first: with a time on the clock of
/// 24 hours or of 12, the date alone, the time alone.
pub const GENERIC_LAYOUTS: [&'static str; 14] = [
    "%d/%m/%Y %H:%M:%S",
    "%d/%m/%Y %H:%M",
    "%d/%m/%Y %I:%M:%S %p",
    "%d/%m/%Y %I:%M %p",
    "%Y/%m/%d %H:%M:%S",
    "%Y/%m/%d %H:%M",
    "%Y/%m/%d %I:%M:%S %p",
    "%Y/%m/%d %I:%M %p",
    "%d/%m/%Y",
    "%Y/%m/%d",
    "%H:%M:%S",
    "%H:%M",
    "%I:%M:%S %p",
    "%I:%M %p",
];

/// The layouts for dates with the month first.
pub const AMERICAN_LAYOUTS: [&'static str; 5] = [
    "%m/%d/%Y %I:%M:%S %p",
    "%m/%d/%Y %I:%M %p",
    "%m/%d/%Y %H:%M:%S",
    "%m/%d/%Y %H:%M",
    "%m/%d/%Y",
];

/// The layouts for dates as in the header of an e-mail.
pub const EMAIL_LAYOUTS: [&'static str; 3] = [
    "%a, %d %b %Y %H:%M:%S %z",
    "%d %b %Y %H:%M:%S %z",
    "%d %b %Y",
];

/// The layout for dates as in the log of a web server.
pub const HTTP_LOG_LAYOUTS: [&'static str; 1] = [
    "%d/%b/%Y:%H:%M:%S %z",
];

/// The layout for dates as in a system log.
pub const SYSLOG_LAYOUTS: [&'static str; 1] = [
    "%b %d %Y %H:%M:%S",
];

/// The layouts for dates after ISO 8601.
pub const ISO_LAYOUTS: [&'static str; 5] = [
    "%Y-%m-%dT%H:%M:%S%.3f%:z",
    "%Y-%m-%dT%H:%M:%S%:z",
    "%Y-%m-%dT%H:%M:%S%.3f",
    "%Y-%m-%dT%H:%M:%S",
    "%Y-%m-%d",
];

/// The layouts of a family, in the order in which they are tried.
pub open spec fn layouts_of(family: Family) -> Seq<&'static str> {
    match family {
        Family::Generic => GENERIC_LAYOUTS@,
        Family::American => AMERICAN_LAYOUTS@,
        Family::Email => EMAIL_LAYOUTS@,
        Family::HttpLog => HTTP_LOG_LAYOUTS@,
        Family::Syslog => SYSLOG_LAYOUTS@,
        Family::Iso => ISO_LAYOUTS@,
    }
}

/// The layouts of a family, in the order in which they are tried.
pub fn layouts(family: Family) -> (r: &'static [&'static str])
    ensures
        r@ == layouts_of(family),
{
    match family {
        Family::Generic => GENERIC_LAYOUTS.as_slice(),
        Family::American => AMERICAN_LAYOUTS.as_slice(),
        Family::Email => EMAIL_LAYOUTS.as_slice(),
        Family::HttpLog => HTTP_LOG_LAYOUTS.as_slice(),
        Family::Syslog => SYSLOG_LAYOUTS.as_slice(),
        Family::Iso => ISO_LAYOUTS.as_slice(),
    }
}

/// A date with day or year first, a time of day, or both.
pub const GENERIC_FRAGMENT: &'static str =
    r"\d{1,2}/\d{1,2}/\d{4}(?:\s+\d{1,2}:\d{2}(?::\d{2})?(?:\s*(?:AM|PM))?)?|\d{4}/\d{1,2}/\d{1,2}(?:\s+\d{1,2}:\d{2}(?::\d{2})?(?:\s*(?:AM|PM))?)?|\d{1,2}:\d{2}(?::\d{2})?(?:\s*(?:AM|PM))?";

/// A date with the month first, and optionally a time of day.
pub const AMERICAN_FRAGMENT: &'static str =
    r"\d{1,2}/\d{1,2}/\d{4}(?:\s+\d{1,2}:\d{2}(?::\d{2})?(?:\s*(?:AM|PM))?)?";

/// A date as in the header of an e-mail, and optionally a time of day with
/// an offset.
pub const EMAIL_FRAGMENT: &'static str =
    r"(?:[A-Za-z]{3},\s+)?\d{1,2}\s+[A-Za-z]{3}\s+\d{4}(?:\s+\d{2}:\d{2}:\d{2}\s+[-+]\d{4})?";

/// A date and a time with an offset, as in the log of a web server.
pub const HTTP_LOG_FRAGMENT: &'static str =
    r"\d{2}/[A-Za-z]{3}/\d{4}:\d{2}:\d{2}:\d{2}\s+[-+]\d{4}";

/// A date and a time, as in a system log.
pub const SYSLOG_FRAGMENT: &'static str =
    r"[A-Za-z]{3}\s+\d{1,2}\s+\d{4}\s+\d{2}:\d{2}:\d{2}";

/// A date, and optionally a time of day and an offset, after ISO 8601.
pub const ISO_FRAGMENT: &'static str =
    r"\d{4}-\d{1,2}-\d{1,2}(?:T\d{2}:\d{2}:\d{2}(?:\.\d{3})?(?:Z|[+-]\d{2}:\d{2})?)?";

/// The regular expression that the fields of a family follow.
pub open spec fn fragment_of(family: Family) -> &'static str {
    match family {
        Family::Generic => GENERIC_FRAGMENT,
        Family::American => AMERICAN_FRAGMENT,
        Family::Email => EMAIL_FRAGMENT,
        Family::HttpLog => HTTP_LOG_FRAGMENT,
        Family::Syslog => SYSLOG_FRAGMENT,
        Family::Iso => ISO_FRAGMENT,
    }
}

/// The regular expression that the fields of a family follow.
pub fn fragment(family: Family) -> (r: &'static str)
    ensures
        r == fragment_of(family),
{
    match family {
        Family::Generic => GENERIC_FRAGMENT,
        Family::American => AMERICAN_FRAGMENT,
        Family::Email => EMAIL_FRAGMENT,
        Family::HttpLog => HTTP_LOG_FRAGMENT,
        Family::Syslog => SYSLOG_FRAGMENT,
        Family::Iso => ISO_FRAGMENT,
    }
}

/// What a converter for the type tag `tag` does: the pattern and the layouts
/// of the tag's family, and nothing for a tag that stands for no family.
pub open spec fn datetime_model(tag: Seq<char>) -> ConverterModel {
    ConverterModel {
        pattern: match family_of(tag) {
            Some(family) => Some(fragment_of(family)@),
            None => None,
        },
        convert: |s: Seq<char>|
            match family_of(tag) {
                Some(family) => resolve(s, layout_views(layouts_of(family))),
                None => Err(ParseError::TypeConversionFailed),
            },
    }
}

/// Converts a field to a date with a time, in the notations of one family.
/// A text that holds a date alone, or a time of day alone, gives that.
#[derive(Debug, Clone)]
pub struct DateTimeConverter {
    format_type: String,
}

impl DateTimeConverter {
    /// The type tag that the converter was made for.
    pub closed spec fn tag(&self) -> Seq<char> {
        self.format_type@
    }

    /// A converter for the family that `format_type` stands for: one of `tg`,
    /// `ta`, `te`, `th`, `ts` and `ti`. With any other tag the converter has
    /// no pattern and refuses every text.
    pub fn new(format_type: &str) -> (r: DateTimeConverter)
        ensures
            r.tag() == format_type@,
    {
        DateTimeConverter { format_type: format_type.to_owned() }
    }
}

impl TypeConverter for DateTimeConverter {
    open spec fn model(&self) -> ConverterModel {
        datetime_model(self.tag())
    }

    fn convert(&self, s: &str) -> (r: Result<Value, ParseError>)
        ensures
            outcome_view(r) == match family_of(self.tag()) {
                Some(family) => resolve(s@, layout_views(layouts_of(family))),
                None => Err(ParseError::TypeConversionFailed),
            },
    {
        let family = match family(self.format_type.as_str()) {
            Some(family) => family,
            None => {
                return Err(ParseError::TypeConversionFailed);
            },
        };
        let layouts = layouts(family);
        if let Some(moment) = find_datetime(s, layouts) {
            return Ok(Value::DateTime(moment));
        }
        if let Some(date) = find_date(s, layouts) {
            return Ok(Value::Date(date));
        }
        if let Some(time) = find_time(s, layouts) {
            return Ok(Value::Time(time));
        }
        Err(ParseError::TypeConversionFailed)
    }

    fn get_pattern(&self) -> (r: Option<&str>)
        ensures
            r == match family_of(self.tag()) {
                Some(family) => Some(fragment_of(family)),
                None => None,
            },
    {
        match family(self.format_type.as_str()) {
            Some(family) => Some(fragment(family)),
            None => None,
        }
    }
}

/// The layouts under which a date is read, in the order in which they are
/// tried.
pub const DATE_LAYOUTS: [&'static str; 12] = [
    "%Y-%m-%d",
    "%Y/%m/%d",
    "%d/%m/%Y",
    "%d-%m-%Y",
    "%m/%d/%Y",
    "%m-%d-%Y",
    "%d %b %Y",
    "%d %B %Y",
    "%b %d, %Y",
    "%B %d, %Y",
    "%d-%b-%Y",
    "%Y%m%d",
];

/// The regular expression that a date follows.
pub const DATE_FRAGMENT: &'static str =
    r"(?:(?:19|20)\d\d[-/](?:0[1-9]|1[0-2])[-/](?:0[1-9]|[12]\d|3[01])|(?:0[1-9]|[12]\d|3[01])[-/](?:0[1-9]|1[0-2])[-/](?:19|20)\d\d|(?:0[1-9]|1[0-2])[-/](?:0[1-9]|[12]\d|3[01])[-/](?:19|20)\d\d|(?:0[1-9]|[12]\d|3[01])(?:\s+|-)?(?:Jan(?:uary)?|Feb(?:ruary)?|Mar(?:ch)?|Apr(?:il)?|May|Jun(?:e)?|Jul(?:y)?|Aug(?:ust)?|Sep(?:tember)?|Oct(?:ober)?|Nov(?:ember)?|Dec(?:ember)?)(?:\s*,\s*|\s+|-)?(?:19|20)\d\d|(?:19|20)\d{2}(?:0[1-9]|1[0-2])(?:0[1-9]|[12]\d|3[01]))";

/// What the date converter does.
pub open spec fn date_model() -> ConverterModel {
    ConverterModel {
        pattern: Some(DATE_FRAGMENT@),
        convert: |s: Seq<char>| resolve_date(s, layout_views(DATE_LAYOUTS@)),
    }
}

/// Converts a field to a calendar date, written with digits or with the
/// name of the month.
#[derive(Debug, Clone, Copy)]
pub struct DateConverter;

impl TypeConverter for DateConverter {
    open spec fn model(&self) -> ConverterModel {
        date_model()
    }

    fn convert(&self, s: &str) -> (r: Result<Value, ParseError>)
        ensures
            outcome_view(r) == resolve_date(s@, layout_views(DATE_LAYOUTS@)),
    {
        match find_date(s, DATE_LAYOUTS.as_slice()) {
            Some(date) => Ok(Value::Date(date)),
            None => Err(ParseError::TypeConversionFailed),
        }
    }

    fn get_pattern(&self) -> (r: Option<&str>)
        ensures
            r == Some(DATE_FRAGMENT),
    {
        Some(DATE_FRAGMENT)
    }
}

/// The layouts under which a time of day is read, in the order in which they
/// are tried.
pub const TIME_LAYOUTS: [&'static str; 6] = [
    "%H:%M:%S",
    "%H:%M",
    "%I:%M:%S %p",
    "%I:%M %p",
    "%H:%M:%S %z",
    "%I:%M:%S %p %z",
];

/// The regular expression that a time of day follows.
pub const TIME_FRAGMENT: &'static str =
    r"(?:[01]\d|2[0-3]):[0-5]\d(?::[0-5]\d)?(?:\s*[AaPp][Mm])?(?:\s*[-+]\d{2}:?\d{2})?";

/// What the time converter does.
pub open spec fn time_model() -> ConverterModel {
    ConverterModel {
        pattern: Some(TIME_FRAGMENT@),
        convert: |s: Seq<char>| resolve_time(s, layout_views(TIME_LAYOUTS@)),
    }
}

/// Converts a field to a time of day, on the clock of 24 hours or of 12.
#[derive(Debug, Clone, Copy)]
pub struct TimeConverter;

impl TypeConverter for TimeConverter {
    open spec fn model(&self) -> ConverterModel {
        time_model()
    }

    fn convert(&self, s: &str) -> (r: Result<Value, ParseError>)
        ensures
            outcome_view(r) == resolve_time(s@, layout_views(TIME_LAYOUTS@)),
    {
        match find_time(s, TIME_LAYOUTS.as_slice()) {
            Some(time) => Ok(Value::Time(time)),
            None => Err(ParseError::TypeConversionFailed),
        }
    }

    fn get_pattern(&self) -> (r: Option<&str>)
        ensures
            r == Some(TIME_FRAGMENT),
    {
        Some(TIME_FRAGMENT)
    }
}

} // verus!
