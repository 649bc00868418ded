//! The contents of an INI file as the configuration logic reads and changes
//! them: sections in file order, each with an optional name and its
//! key-value pairs in order. Several sections may share a name, and a key
//! may occur several times in a section.
use vstd::prelude::*;

use crate::text::str_equal;

verus! {

/// One section of an INI file; `None` names the general section.
pub struct IniSection {
    pub name: Option<String>,
    pub properties: Vec<(String, String)>,
}

/// The sections of an INI file, in order.
pub struct IniDocument {
    pub sections: Vec<IniSection>,
}

/// A section as texts: its name (`None` for the general section) and its
/// key-value pairs in order.
pub type SectionView = (Option<Seq<char>>, Seq<(Seq<char>, Seq<char>)>);

/// The key-value pairs of a section as texts.
pub open spec fn pairs_view(props: Seq<(String, String)>) -> Seq<(Seq<char>, Seq<char>)> {
    props.map_values(|p: (String, String)| (p.0@, p.1@))
}

/// A section as texts.
pub open spec fn section_view(s: IniSection) -> SectionView {
    (
        match s.name {
            Some(n) => Some(n@),
            None => None,
        },
        pairs_view(s.properties@),
    )
}

/// A document as texts: its sections in order.
pub open spec fn document_view(d: IniDocument) -> Seq<SectionView> {
    d.sections@.map_values(|s: IniSection| section_view(s))
}

/// Whether a section has the name `name`.
pub open spec fn has_name(s: SectionView, name: Seq<char>) -> bool {
    s.0 == Some(name)
}

/// The value of the first pair from index `k` on whose key is `key`.
pub open spec fn props_get_from(props: Seq<(Seq<char>, Seq<char>)>, key: Seq<char>, k: int) -> Option<
    Seq<char>,
>
    decreases props.len() - k,
{
    if k < 0 || k >= props.len() {
        None
    } else if props[k].0 == key {
        Some(props[k].1)
    } else {
        props_get_from(props, key, k + 1)
    }
}

/// The value of the first pair whose key is `key`.
pub open spec fn props_get(props: Seq<(Seq<char>, Seq<char>)>, key: Seq<char>) -> Option<Seq<char>> {
    props_get_from(props, key, 0)
}

/// The value of `key` in a section.
pub open spec fn section_get(s: SectionView, key: Seq<char>) -> Option<Seq<char>> {
    props_get(s.1, key)
}

/// The index of the first section from index `k` on named `name`.
pub open spec fn find_section_from(sections: Seq<SectionView>, name: Seq<char>, k: int) -> Option<
    int,
>
    decreases sections.len() - k,
{
    if k < 0 || k >= sections.len() {
        None
    } else if has_name(sections[k], name) {
        Some(k)
    } else {
        find_section_from(sections, name, k + 1)
    }
}

/// The index of the first section named `name`.
pub open spec fn find_section(sections: Seq<SectionView>, name: Seq<char>) -> Option<int> {
    find_section_from(sections, name, 0)
}

/// What is found from index `k` on is at `k` or after it and carries the
/// name.
pub proof fn lemma_find_section_from(sections: Seq<SectionView>, name: Seq<char>, k: int)
    requires
        0 <= k,
    ensures
        match find_section_from(sections, name, k) {
            Some(i) => k <= i < sections.len() && has_name(sections[i], name),
            None => true,
        },
    decreases sections.len() - k,
{
    if k < sections.len() && !has_name(sections[k], name) {
        lemma_find_section_from(sections, name, k + 1);
    }
}

/// A copy of a text.
fn copy_text(s: &String) -> (res: String)
    ensures
        res@ == s@,
{
    s.as_str().to_owned()
}

impl IniSection {
    /// Whether the section has the name `name`.
    pub fn is_named(&self, name: &str) -> (res: bool)
        ensures
            res == has_name(section_view(*self), name@),
    {
        match &self.name {
            Some(s) => str_equal(s.as_str(), name),
            None => false,
        }
    }

    /// The value of the first pair whose key is `key`, if any.
    pub fn get(&self, key: &str) -> (res: Option<String>)
        ensures
            match res {
                Some(v) => section_get(section_view(*self), key@) == Some(v@),
                None => section_get(section_view(*self), key@) is None,
            },
    {
        let n = self.properties.len();
        let mut i: usize = 0;
        while i < n
            invariant
                n == self.properties@.len(),
                i <= n,
                section_get(section_view(*self), key@) == props_get_from(
                    pairs_view(self.properties@),
                    key@,
                    i as int,
                ),
            decreases n - i,
        {
            if str_equal(self.properties[i].0.as_str(), key) {
                return Some(copy_text(&self.properties[i].1));
            }
            i = i + 1;
        }
        None
    }
}

impl IniDocument {
    /// The index of the first section named `name`, if any.
    pub fn find_section(&self, name: &str) -> (res: Option<usize>)
        ensures
            match res {
                Some(i) => find_section(document_view(*self), name@) == Some(i as int),
                None => find_section(document_view(*self), name@) is None,
            },
    {
        let n = self.sections.len();
        let mut i: usize = 0;
        while i < n
            invariant
                n == self.sections@.len(),
                i <= n,
                find_section(document_view(*self), name@) == find_section_from(
                    document_view(*self),
                    name@,
                    i as int,
                ),
            decreases n - i,
        {
            if self.sections[i].is_named(name) {
                return Some(i);
            }
            i = i + 1;
        }
        None
    }
}

} // verus!
