//! The parts of a document that geometry is read from: its pages in order,
//! and its stream objects by identifier.

use crate::content::{bytes_equal, Operand};
use vstd::prelude::*;

verus! {

/// The identifier of an object: its number and its generation.
#[derive(Clone, Copy, Debug, PartialEq, Eq, Structural)]
pub struct ObjectId {
    pub number: u32,
    pub generation: u16,
}

/// An entry of an external-object table.
#[derive(Clone, Debug, PartialEq)]
pub struct XObjectEntry {
    pub name: Vec<u8>,
    /// The object referred to; `None` where the entry holds no reference.
    pub target: Option<ObjectId>,
}

/// A resource scope: what the names in a content stream refer to.
///
/// In a table that was read from a dictionary each name occurs once. The
/// type does not ask for that: where a name occurs more than once, the first
/// entry with it counts.
#[derive(Clone, Debug, PartialEq)]
pub struct Resources {
    /// The table of external objects; `None` where the scope has none.
    pub xobjects: Option<Vec<XObjectEntry>>,
}

/// A stream object with the entries of its dictionary that matter here.
#[derive(Clone, Debug, PartialEq)]
pub struct StreamObject {
    pub id: ObjectId,
    /// The name under `Subtype`.
    pub subtype: Option<Vec<u8>>,
    /// The array under `Matrix`.
    pub matrix: Option<Vec<Operand>>,
    /// The dictionary under `Resources`.
    pub resources: Option<Resources>,
    /// The names under `Filter`: the one name, or those of the array.
    pub filters: Vec<Vec<u8>>,
    /// The integer under `Width`.
    pub width: Option<i64>,
    /// The integer under `Height`.
    pub height: Option<i64>,
    /// The name under `ColorSpace`. It is carried along; what is written
    /// for an image goes by the length of its content, not by this name.
    pub color_space: Option<Vec<u8>>,
    /// The integer under `BitsPerComponent`.
    pub bits_per_component: Option<i64>,
    /// The bytes of the stream as stored.
    pub raw: Vec<u8>,
    /// The bytes of the stream with its filters undone; `None` where they
    /// cannot be undone.
    pub content: Option<Vec<u8>>,
}

/// A page.
#[derive(Clone, Debug, PartialEq)]
pub struct Page {
    /// The array under `MediaBox`.
    pub media_box: Option<Vec<Operand>>,
    /// The dictionary under `Resources`.
    pub resources: Option<Resources>,
    /// The content of the page with its filters undone; `None` where the
    /// page has none that can be read.
    pub content: Option<Vec<u8>>,
}

/// A document: its pages in order, and its stream objects.
///
/// In a document that was read from a file each identifier occurs once
/// among the objects. The type does not ask for that: where an identifier
/// occurs more than once, the first object with it counts.
#[derive(Clone, Debug, PartialEq)]
pub struct Document {
    pub pages: Vec<Page>,
    pub objects: Vec<StreamObject>,
}

/// The index of the first element that `matches`, if there is one.
pub open spec fn first_match<T>(s: Seq<T>, matches: spec_fn(T) -> bool) -> Option<int>
    decreases s.len(),
{
    if s.len() == 0 {
        None
    } else if matches(s[0]) {
        Some(0)
    } else {
        match first_match(s.skip(1), matches) {
            Some(i) => Some(i + 1),
            None => None,
        }
    }
}

/// The test for an entry with a given name.
pub open spec fn has_name(name: Seq<u8>) -> spec_fn(XObjectEntry) -> bool {
    |e: XObjectEntry| e.name@ == name
}

/// The test for an object with a given identifier.
pub open spec fn has_id(id: ObjectId) -> spec_fn(StreamObject) -> bool {
    |o: StreamObject| o.id == id
}

/// `first_match` finds the index `n` where nothing before `n` matches and
/// the element at `n` does, and finds nothing where nothing matches at all.
proof fn lemma_first_match<T>(s: Seq<T>, matches: spec_fn(T) -> bool, n: int)
    requires
        0 <= n <= s.len(),
        forall|j: int| 0 <= j < n ==> !matches(#[trigger] s[j]),
    ensures
        n < s.len() && matches(s[n]) ==> first_match(s, matches) == Some(n),
        n == s.len() ==> first_match(s, matches) is None,
    decreases n,
{
    if n > 0 {
        let rest = s.skip(1);
        assert forall|j: int| 0 <= j < n - 1 implies !matches(#[trigger] rest[j]) by {
            assert(rest[j] == s[j + 1]);
        }
        lemma_first_match(rest, matches, n - 1);
        if n < s.len() {
            assert(rest[n - 1] == s[n]);
        }
    }
}

impl Resources {
    /// Whether no name occurs twice in the table.
    pub open spec fn spec_distinct_names(&self) -> bool {
        match self.xobjects {
            Some(entries) => forall|i: int, j: int|
                #![trigger entries@[i], entries@[j]]
                0 <= i < j < entries@.len() ==> entries@[i].name@ != entries@[j].name@,
            None => true,
        }
    }

    /// The target of the first entry with this name: `None` where no entry
    /// has the name, `Some(None)` where the first that has it holds no
    /// reference.
    pub open spec fn spec_lookup(&self, name: Seq<u8>) -> Option<Option<ObjectId>> {
        match self.xobjects {
            Some(entries) => match first_match(entries@, has_name(name)) {
                Some(i) => Some(entries@[i].target),
                None => None,
            },
            None => None,
        }
    }

    /// Looks a name up in the table of external objects.
    pub fn lookup(&self, name: &[u8]) -> (r: Option<Option<ObjectId>>)
        ensures
            r == self.spec_lookup(name@),
    {
        match &self.xobjects {
            Some(entries) => {
                let ghost matches = has_name(name@);
                let mut i: usize = 0;
                while i < entries.len()
                    invariant
                        i <= entries.len(),
                        self.xobjects == Some(*entries),
                        matches == has_name(name@),
                        forall|j: int| 0 <= j < i ==> !matches(#[trigger] entries@[j]),
                    decreases entries.len() - i,
                {
                    if bytes_equal(entries[i].name.as_slice(), name) {
                        proof {
                            lemma_first_match(entries@, matches, i as int);
                        }
                        return Some(entries[i].target);
                    }
                    i = i + 1;
                }
                proof {
                    lemma_first_match(entries@, matches, i as int);
                }
                None
            },
            None => None,
        }
    }
}

impl Document {
    /// Whether no identifier occurs twice among the objects.
    pub open spec fn spec_distinct_ids(&self) -> bool {
        forall|i: int, j: int|
            #![trigger self.objects@[i], self.objects@[j]]
            0 <= i < j < self.objects@.len() ==> self.objects@[i].id != self.objects@[j].id
    }

    /// The index of the first stream object with this identifier.
    pub open spec fn spec_find(&self, id: ObjectId) -> Option<int> {
        first_match(self.objects@, has_id(id))
    }

    /// Finds the stream object with an identifier.
    pub fn find(&self, id: ObjectId) -> (r: Option<usize>)
        ensures
            r matches Some(i) ==> self.spec_find(id) == Some(i as int) && i < self.objects.len(),
            r is None ==> self.spec_find(id) is None,
    {
        let ghost matches = has_id(id);
        let mut i: usize = 0;
        while i < self.objects.len()
            invariant
                i <= self.objects.len(),
                matches == has_id(id),
                forall|j: int| 0 <= j < i ==> !matches(#[trigger] self.objects@[j]),
            decreases self.objects.len() - i,
        {
            if self.objects[i].id == id {
                proof {
                    lemma_first_match(self.objects@, matches, i as int);
                }
                return Some(i);
            }
            i = i + 1;
        }
        proof {
            lemma_first_match(self.objects@, matches, i as int);
        }
        None
    }
}

/// Where no identifier occurs twice, every object is the one that is found
/// under its identifier, wherever it stands among the objects.
pub proof fn lemma_find_with_distinct_ids(doc: Document, i: int)
    requires
        doc.spec_distinct_ids(),
        0 <= i < doc.objects@.len(),
    ensures
        doc.spec_find(doc.objects@[i].id) == Some(i),
{
    let id = doc.objects@[i].id;
    lemma_first_match(doc.objects@, has_id(id), i);
}

/// Where no name occurs twice, every entry is the one that is found under
/// its name, wherever it stands in the table.
pub proof fn lemma_lookup_with_distinct_names(
    resources: Resources,
    entries: Vec<XObjectEntry>,
    i: int,
)
    requires
        resources.xobjects == Some(entries),
        resources.spec_distinct_names(),
        0 <= i < entries@.len(),
    ensures
        resources.spec_lookup(entries@[i].name@) == Some(entries@[i].target),
{
    let name = entries@[i].name@;
    lemma_first_match(entries@, has_name(name), i);
}

} // verus!
