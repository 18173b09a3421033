//! What one match gives: the fields as written and as values.

use vstd::prelude::*;
use vstd::utf8::encode_utf8;
use crate::text::{flatten, flatten_name, same_text};
use crate::value::{FieldType, Value, ValueView};

verus! {

/// The fields of one match.
///
/// `fixed`, `named`, `spans` and `converted` have one entry for each field of
/// the template, in the order in which the template declares the fields.
#[derive(Debug, PartialEq)]
pub struct ParseResult {
    /// The text of each field.
    pub fixed: Vec<String>,
    /// The identifier of each field with the field's text.
    pub named: Vec<(String, String)>,
    /// Where each field starts and ends in the text that was read, as
    /// offsets in bytes. A field that took no part in the match has no text
    /// and the span from zero to zero.
    pub spans: Vec<(usize, usize)>,
    /// The value of each field. A field without a type has its text as value.
    pub converted: Vec<Value>,
}

/// The fields of one match as a mathematical value.
pub struct ParseResultView {
    pub fixed: Seq<Seq<char>>,
    pub named: Seq<(Seq<char>, Seq<char>)>,
    pub spans: Seq<(int, int)>,
    pub converted: Seq<ValueView>,
}

impl View for ParseResult {
    type V = ParseResultView;

    open spec fn view(&self) -> ParseResultView {
        ParseResultView {
            fixed: Seq::new(self.fixed@.len(), |i: int| self.fixed@[i]@),
            named: Seq::new(self.named@.len(), |i: int| (self.named@[i].0@, self.named@[i].1@)),
            spans: Seq::new(
                self.spans@.len(),
                |i: int| (self.spans@[i].0 as int, self.spans@[i].1 as int),
            ),
            converted: Seq::new(self.converted@.len(), |i: int| self.converted@[i]@),
        }
    }
}

impl ParseResultView {
    /// Whether the fields were cut from `text`: each field's span lies in
    /// the text, and the field's text is what the text holds there.
    pub open spec fn cut_from(self, text: Seq<char>) -> bool {
        &&& self.spans.len() == self.fixed.len()
        &&& forall|i: int|
            0 <= i < self.fixed.len() ==> {
                &&& 0 <= (#[trigger] self.spans[i]).0 <= self.spans[i].1 <= encode_utf8(text).len()
                &&& encode_utf8(self.fixed[i]) == encode_utf8(text).subrange(
                    self.spans[i].0,
                    self.spans[i].1,
                )
            }
    }
}

/// The index of the last of the first `n` entries of `named` that carries
/// the identifier `identifier`.
pub open spec fn last_named(
    named: Seq<(String, String)>,
    identifier: Seq<char>,
    n: int,
) -> Option<int>
    decreases n,
{
    if n <= 0 {
        None
    } else if named[n - 1].0@ == identifier {
        Some(n - 1)
    } else {
        last_named(named, identifier, n - 1)
    }
}

/// The last entry that carries an identifier is the one that a lookup by
/// name finds: where entry `k` carries the identifier and no entry behind it
/// among the first `n` does, the lookup gives `k`.
pub proof fn lemma_last_named(
    named: Seq<(String, String)>,
    identifier: Seq<char>,
    n: int,
    k: int,
)
    requires
        0 <= k < n <= named.len(),
        named[k].0@ == identifier,
        forall|j: int| k < j < n ==> (#[trigger] named[j]).0@ != identifier,
    ensures
        last_named(named, identifier, n) == Some(k),
    decreases n,
{
    if k < n - 1 {
        assert(named[n - 1].0@ != identifier);
        lemma_last_named(named, identifier, n - 1, k);
    }
}

/// A lookup by name finds nothing exactly if no entry carries the identifier.
pub proof fn lemma_none_named(named: Seq<(String, String)>, identifier: Seq<char>, n: int)
    requires
        0 <= n <= named.len(),
    ensures
        last_named(named, identifier, n) is None <==> forall|j: int|
            0 <= j < n ==> (#[trigger] named[j]).0@ != identifier,
    decreases n,
{
    if n > 0 {
        lemma_none_named(named, identifier, n - 1);
    }
}

impl ParseResult {
    /// The value of the field at `index`, if there is such a field and its
    /// value is of the type asked for.
    pub open spec fn value_at<T: FieldType>(&self, index: int) -> Option<&T> {
        if 0 <= index < self.converted@.len() {
            T::held_in(&self.converted@[index])
        } else {
            None
        }
    }

    /// The value of the field named `name`, if there is such a field and its
    /// value is of the type asked for. The name may be given as the template
    /// has it or flattened, and a field without a name answers to its place
    /// among the fields, counted from zero and written in decimal. Of two
    /// fields with one identifier the later one answers.
    pub open spec fn value_named<T: FieldType>(&self, name: Seq<char>) -> Option<&T> {
        match last_named(self.named@, flatten_name(name), self.named@.len() as int) {
            Some(index) => self.value_at::<T>(index),
            None => None,
        }
    }

    /// The value of the field at `index`, counted from zero in the order of
    /// the template. `None` where there is no such field, and where the
    /// field's value is not of type `T`.
    pub fn get<T: FieldType>(&self, index: usize) -> (r: Option<&T>)
        ensures
            r == self.value_at::<T>(index as int),
    {
        if index < self.converted.len() {
            T::pick(&self.converted[index])
        } else {
            None
        }
    }

    /// The value of the field named `name`. `None` where there is no such
    /// field, and where the field's value is not of type `T`.
    pub fn named<T: FieldType>(&self, name: &str) -> (r: Option<&T>)
        ensures
            r == self.value_named::<T>(name@),
    {
        let identifier = flatten(name);
        let mut i: usize = self.named.len();
        while i > 0
            invariant
                i <= self.named.len(),
                identifier@ == flatten_name(name@),
                last_named(self.named@, identifier@, self.named@.len() as int) == last_named(
                    self.named@,
                    identifier@,
                    i as int,
                ),
            decreases i,
        {
            i -= 1;
            if same_text(self.named[i].0.as_str(), identifier.as_str()) {
                return self.get::<T>(i);
            }
        }
        None
    }
}

} // verus!
