//! The registry of converters: which converter answers to which type tag.

use vstd::prelude::*;
use crate::converter::{
    float_model,
    integer_model,
    word_model,
    ConverterModel,
    FloatConverter,
    IntConverter,
    TypeConverter,
    WordConverter,
};
use crate::datetime::{datetime_model, DateTimeConverter};
use crate::text::same_text;

verus! {

/// One line of a table: a type tag and the converter that answers to it.
struct Entry<C: TypeConverter + ?Sized> {
    tag: String,
    converter: Box<C>,
}

/// A table of converters by type tag. A later line for a tag replaces an
/// earlier one.
pub struct Table<C: TypeConverter + ?Sized> {
    entries: Vec<Entry<C>>,
}

/// The registry that a parser works with: a table of converters of any kind.
pub type Registry = Table<dyn TypeConverter>;

/// What the first `n` lines of a table say, as a map from type tag to what
/// the tag's converter does.
spec fn models_of<C: TypeConverter + ?Sized>(entries: Seq<Entry<C>>, n: nat) -> Map<
    Seq<char>,
    ConverterModel,
>
    decreases n,
{
    if n == 0 {
        Map::empty()
    } else {
        models_of(entries, (n - 1) as nat).insert(
            entries[n - 1].tag@,
            entries[n - 1].converter.model(),
        )
    }
}

/// Tables that agree on their first `n` lines say the same with them.
proof fn lemma_models_agree<C: TypeConverter + ?Sized>(
    a: Seq<Entry<C>>,
    b: Seq<Entry<C>>,
    n: nat,
)
    requires
        n <= a.len(),
        n <= b.len(),
        forall|j: int| 0 <= j < n ==> a[j] == b[j],
    ensures
        models_of(a, n) == models_of(b, n),
    decreases n,
{
    if n > 0 {
        lemma_models_agree(a, b, (n - 1) as nat);
    }
}

/// The last line for a tag decides what the table says of the tag.
proof fn lemma_models_last<C: TypeConverter + ?Sized>(a: Seq<Entry<C>>, n: nat, i: int)
    requires
        0 <= i < n <= a.len(),
        forall|j: int| i < j < n ==> a[j].tag@ != a[i].tag@,
    ensures
        models_of(a, n).contains_key(a[i].tag@),
        models_of(a, n)[a[i].tag@] == a[i].converter.model(),
    decreases n,
{
    if n - 1 > i {
        lemma_models_last(a, (n - 1) as nat, i);
    }
}

/// A table says nothing of a tag that none of its lines holds.
proof fn lemma_models_absent<C: TypeConverter + ?Sized>(a: Seq<Entry<C>>, n: nat, tag: Seq<char>)
    requires
        n <= a.len(),
        forall|j: int| 0 <= j < n ==> a[j].tag@ != tag,
    ensures
        !models_of(a, n).contains_key(tag),
    decreases n,
{
    if n > 0 {
        lemma_models_absent(a, (n - 1) as nat, tag);
    }
}

/// The lines of one table followed by those of another say what the first
/// table says, but for the tags of the second, of which they say what the
/// second says.
proof fn lemma_models_concat<C: TypeConverter + ?Sized>(
    a: Seq<Entry<C>>,
    b: Seq<Entry<C>>,
    n: nat,
)
    requires
        n <= b.len(),
    ensures
        models_of(a + b, a.len() + n) == models_of(a, a.len()).union_prefer_right(
            models_of(b, n),
        ),
    decreases n,
{
    if n == 0 {
        lemma_models_agree(a + b, a, a.len());
        assert(models_of(a, a.len()).union_prefer_right(models_of(b, 0)) =~= models_of(
            a,
            a.len(),
        ));
    } else {
        lemma_models_concat(a, b, (n - 1) as nat);
        assert(models_of(a + b, a.len() + n) =~= models_of(a, a.len()).union_prefer_right(
            models_of(b, n),
        ));
    }
}

impl<C: TypeConverter + ?Sized> Table<C> {
    /// What the table says: for each type tag that it knows, what the tag's
    /// converter does.
    pub closed spec fn models(&self) -> Map<Seq<char>, ConverterModel> {
        models_of(self.entries@, self.entries@.len())
    }

    /// A table without lines.
    pub fn new() -> (r: Self)
        ensures
            r.models() == Map::<Seq<char>, ConverterModel>::empty(),
    {
        Table { entries: Vec::new() }
    }

    /// Lets `converter` answer to `tag`, in place of the converter that did
    /// so before, if there was one.
    pub fn insert(&mut self, tag: &str, converter: Box<C>)
        ensures
            final(self).models() == old(self).models().insert(tag@, converter.model()),
    {
        self.entries.push(Entry { tag: tag.to_owned(), converter });
        proof {
            lemma_models_agree(self.entries@, old(self).entries@, old(self).entries@.len());
        }
    }

    /// The converter that answers to `tag`, if there is one.
    pub fn get(&self, tag: &str) -> (r: Option<&Box<C>>)
        ensures
            match r {
                Some(converter) => self.models().contains_key(tag@) && self.models()[tag@]
                    == converter.model(),
                None => !self.models().contains_key(tag@),
            },
    {
        let mut i: usize = self.entries.len();
        while i > 0
            invariant
                i <= self.entries.len(),
                forall|j: int| i <= j < self.entries.len() ==> self.entries[j].tag@ != tag@,
            decreases i,
        {
            i -= 1;
            if same_text(self.entries[i].tag.as_str(), tag) {
                proof {
                    lemma_models_last(self.entries@, self.entries@.len(), i as int);
                }
                return Some(&self.entries[i].converter);
            }
        }
        proof {
            lemma_models_absent(self.entries@, self.entries@.len(), tag@);
        }
        None
    }

    /// Whether some converter answers to `tag`.
    pub fn contains(&self, tag: &str) -> (r: bool)
        ensures
            r == self.models().contains_key(tag@),
    {
        self.get(tag).is_some()
    }

    /// This table with the lines of `other` laid over it: a tag of `other` is
    /// answered as `other` says, any other tag as this table says.
    pub fn merge(self, other: Self) -> (r: Self)
        ensures
            r.models() == self.models().union_prefer_right(other.models()),
    {
        let mut merged = self;
        let mut added = other;
        proof {
            lemma_models_concat(merged.entries@, added.entries@, added.entries@.len());
        }
        merged.entries.append(&mut added.entries);
        merged
    }
}

/// What the built-in converters do, by type tag: `d` for integers, `f` for
/// numbers with a fractional part, `w` for words, and `tg`, `ta`, `te`, `th`,
/// `ts` and `ti` for the families of dates with times.
pub open spec fn builtin_models() -> Map<Seq<char>, ConverterModel> {
    Map::<Seq<char>, ConverterModel>::empty().insert("d"@, integer_model()).insert(
        "f"@,
        float_model(),
    ).insert("w"@, word_model()).insert("tg"@, datetime_model("tg"@)).insert(
        "ta"@,
        datetime_model("ta"@),
    ).insert("te"@, datetime_model("te"@)).insert("th"@, datetime_model("th"@)).insert(
        "ts"@,
        datetime_model("ts"@),
    ).insert("ti"@, datetime_model("ti"@))
}

/// Whether `tag` is one of the nine built-in type tags.
pub open spec fn is_builtin_tag(tag: Seq<char>) -> bool {
    tag == seq!['d'] || tag == seq!['f'] || tag == seq!['w'] || (tag.len() == 2 && tag[0] == 't'
        && (tag[1] == 'g' || tag[1] == 'a' || tag[1] == 'e' || tag[1] == 'h' || tag[1] == 's'
        || tag[1] == 'i'))
}

/// The built-in converters answer to the nine built-in type tags and to no
/// other, and the converter of a date tag is that of the tag's family.
pub proof fn lemma_builtin_tags(tag: Seq<char>)
    ensures
        builtin_models().contains_key(tag) <==> is_builtin_tag(tag),
        tag.len() == 2 && is_builtin_tag(tag) ==> builtin_models()[tag] == datetime_model(tag),
{
    reveal_strlit("d");
    reveal_strlit("f");
    reveal_strlit("w");
    reveal_strlit("tg");
    reveal_strlit("ta");
    reveal_strlit("te");
    reveal_strlit("th");
    reveal_strlit("ts");
    reveal_strlit("ti");
    assert("d"@ == seq!['d']);
    assert("f"@ == seq!['f']);
    assert("w"@ == seq!['w']);
    assert("tg"@ == seq!['t', 'g']);
    assert("ta"@ == seq!['t', 'a']);
    assert("te"@ == seq!['t', 'e']);
    assert("th"@ == seq!['t', 'h']);
    assert("ts"@ == seq!['t', 's']);
    assert("ti"@ == seq!['t', 'i']);
    if tag.len() == 2 {
        assert(tag == seq![tag[0], tag[1]]);
    }
}

/// The converters of the caller lie over the built-in ones: a tag of the
/// caller is answered as the caller says, and every other built-in tag as
/// it is built in.
pub proof fn lemma_overlay(extra: Map<Seq<char>, ConverterModel>, tag: Seq<char>)
    ensures
        ({
            let all = builtin_models().union_prefer_right(extra);
            &&& all.contains_key(tag) <==> extra.contains_key(tag) || builtin_models().contains_key(
                tag,
            )
            &&& extra.contains_key(tag) ==> all[tag] == extra[tag]
            &&& !extra.contains_key(tag) && builtin_models().contains_key(tag) ==> all[tag]
                == builtin_models()[tag]
        }),
{
}

impl Table<dyn TypeConverter> {
    /// The registry of the built-in converters.
    pub fn builtin() -> (r: Registry)
        ensures
            r.models() == builtin_models(),
    {
        let mut r = Registry::new();
        r.insert("d", Box::new(IntConverter));
        r.insert("f", Box::new(FloatConverter));
        r.insert("w", Box::new(WordConverter));
        r.insert("tg", Box::new(DateTimeConverter::new("tg")));
        r.insert("ta", Box::new(DateTimeConverter::new("ta")));
        r.insert("te", Box::new(DateTimeConverter::new("te")));
        r.insert("th", Box::new(DateTimeConverter::new("th")));
        r.insert("ts", Box::new(DateTimeConverter::new("ts")));
        r.insert("ti", Box::new(DateTimeConverter::new("ti")));
        r
    }

    /// The built-in converters with those of `extra` laid over them: a tag
    /// of `extra` is answered by the converter of `extra`, any other tag by
    /// the built-in converter if there is one.
    pub fn with_builtin(extra: Registry) -> (r: Registry)
        ensures
            r.models() == builtin_models().union_prefer_right(extra.models()),
    {
        let base = Registry::builtin();
        base.merge(extra)
    }
}

} // verus!
