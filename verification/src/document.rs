use vstd::prelude::*;

use crate::util::str_eq;

verus! {

/// Ghost form of a [`Section`]: its name and its ordered key/value entries,
/// all as character sequences.
pub struct SecV {
    pub name: Seq<char>,
    pub entries: Seq<(Seq<char>, Seq<char>)>,
}

/// One named group of ordered `key = value` entries of a parsed document.
///
/// Entries keep the order in which they were inserted or read; a key may
/// occur more than once, in which case lookups return the first occurrence,
/// as the underlying file format does.
pub struct Section {
    pub name: String,
    pub entries: Vec<(String, String)>,
}

impl View for Section {
    type V = SecV;

    open spec fn view(&self) -> SecV {
        SecV {
            name: self.name@,
            entries: self.entries@.map_values(|e: (String, String)| (e.0@, e.1@)),
        }
    }
}

/// The in-memory form of one key/value text file: an ordered list of
/// sections. A section with an empty name stands for entries that appear
/// before any section header.
pub struct Document {
    pub sections: Vec<Section>,
}

impl View for Document {
    type V = Seq<SecV>;

    open spec fn view(&self) -> Seq<SecV> {
        self.sections@.map_values(|s: Section| s@)
    }
}

/// The value under `key` among `entries`: the first entry whose key matches,
/// or `None` if no entry does.
pub open spec fn sec_lookup(entries: Seq<(Seq<char>, Seq<char>)>, key: Seq<char>) -> Option<
    Seq<char>,
>
    decreases entries.len(),
{
    if entries.len() == 0 {
        None
    } else if entries[0].0 == key {
        Some(entries[0].1)
    } else {
        sec_lookup(entries.drop_first(), key)
    }
}

/// The section named `name` among `sections`: the first section whose name
/// matches, or `None` if no section does.
pub open spec fn doc_lookup_sec(sections: Seq<SecV>, name: Seq<char>) -> Option<SecV>
    decreases sections.len(),
{
    if sections.len() == 0 {
        None
    } else if sections[0].name == name {
        Some(sections[0])
    } else {
        doc_lookup_sec(sections.drop_first(), name)
    }
}

proof fn lemma_sec_lookup_step(entries: Seq<(Seq<char>, Seq<char>)>, key: Seq<char>, i: int)
    requires
        0 <= i < entries.len(),
        entries[i].0 != key,
    ensures
        sec_lookup(entries.skip(i), key) == sec_lookup(entries.skip(i + 1), key),
{
    assert(entries.skip(i).drop_first() =~= entries.skip(i + 1));
}

proof fn lemma_doc_lookup_step(sections: Seq<SecV>, name: Seq<char>, i: int)
    requires
        0 <= i < sections.len(),
        sections[i].name != name,
    ensures
        doc_lookup_sec(sections.skip(i), name) == doc_lookup_sec(sections.skip(i + 1), name),
{
    assert(sections.skip(i).drop_first() =~= sections.skip(i + 1));
}

impl Section {
    /// A new, empty section under the given name.
    pub fn new(name: &str) -> (r: Section)
        ensures
            r@.name == name@,
            r@.entries.len() == 0,
    {
        Section { name: name.to_owned(), entries: Vec::new() }
    }

    /// Appends a `key = value` entry at the end of the section.
    pub fn insert(&mut self, key: &str, value: String)
        ensures
            final(self)@.name == old(self)@.name,
            final(self)@.entries == old(self)@.entries.push((key@, value@)),
    {
        let ghost before = self@.entries;
        self.entries.push((key.to_owned(), value));
        proof {
            assert(final(self)@.entries =~= before.push((key@, value@)));
        }
    }

    /// Renames the section, keeping its entries.
    pub fn set_name(&mut self, name: &str)
        ensures
            final(self)@.name == name@,
            final(self)@.entries == old(self)@.entries,
    {
        self.name = name.to_owned();
    }

    /// The value stored under `key`: the first matching entry, if any.
    pub fn get(&self, key: &str) -> (r: Option<&String>)
        ensures
            match r {
                Some(v) => sec_lookup(self@.entries, key@) == Some(v@),
                None => sec_lookup(self@.entries, key@) is None,
            },
    {
        let n = self.entries.len();
        let mut i: usize = 0;
        proof {
            assert(self@.entries.skip(0) =~= self@.entries);
        }
        while i < n
            invariant
                n == self.entries.len(),
                i <= n,
                sec_lookup(self@.entries, key@) == sec_lookup(self@.entries.skip(i as int), key@),
            decreases n - i,
        {
            if str_eq(self.entries[i].0.as_str(), key) {
                proof {
                    assert(self@.entries.skip(i as int)[0] == self@.entries[i as int]);
                }
                return Some(&self.entries[i].1);
            }
            proof {
                lemma_sec_lookup_step(self@.entries, key@, i as int);
            }
            i += 1;
        }
        proof {
            assert(self@.entries.skip(n as int) =~= Seq::<(Seq<char>, Seq<char>)>::empty());
        }
        None
    }
}

impl Document {
    /// A new document with no sections.
    pub fn new() -> (r: Document)
        ensures
            r@.len() == 0,
    {
        Document { sections: Vec::new() }
    }

    /// Appends a section at the end of the document.
    pub fn push_section(&mut self, section: Section)
        ensures
            final(self)@ == old(self)@.push(section@),
    {
        self.sections.push(section);
    }

    /// The section named `name`: the first match, if any.
    pub fn section(&self, name: &str) -> (r: Option<&Section>)
        ensures
            match r {
                Some(s) => doc_lookup_sec(self@, name@) == Some(s@),
                None => doc_lookup_sec(self@, name@) is None,
            },
    {
        let n = self.sections.len();
        let mut i: usize = 0;
        proof {
            assert(self@.skip(0) =~= self@);
        }
        while i < n
            invariant
                n == self.sections.len(),
                i <= n,
                doc_lookup_sec(self@, name@) == doc_lookup_sec(self@.skip(i as int), name@),
            decreases n - i,
        {
            if str_eq(self.sections[i].name.as_str(), name) {
                proof {
                    assert(self@.skip(i as int)[0] == self@[i as int]);
                }
                return Some(&self.sections[i]);
            }
            proof {
                lemma_doc_lookup_step(self@, name@, i as int);
            }
            i += 1;
        }
        proof {
            assert(self@.skip(n as int) =~= Seq::<SecV>::empty());
        }
        None
    }
}

} // verus!
