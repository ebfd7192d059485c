//! Settings of the Next.js plugin.

use std::borrow::Cow;
use vstd::prelude::*;

verus! {

/// A setting that is written either as one value or as a list of values.
#[derive(Debug, PartialEq)]
pub enum OneOrMany<T> {
    One(T),
    Many(Vec<T>),
}

impl<T> Default for OneOrMany<T> {
    /// The empty list.
    fn default() -> (value: OneOrMany<T>)
        ensures
            value matches OneOrMany::Many(list) && list@.len() == 0,
    {
        OneOrMany::Many(Vec::new())
    }
}

/// Settings of the Next.js plugin rules.
#[derive(Debug)]
pub struct NextPluginSettings {
    /// The root directory of the Next.js project: one directory, or
    /// several where a repository holds several projects.
    root_dir: OneOrMany<String>,
}

impl Default for NextPluginSettings {
    /// No root directory is set.
    fn default() -> (settings: NextPluginSettings)
        ensures
            settings.root_dirs() == Seq::<Seq<char>>::empty(),
            settings.is_list(),
    {
        let settings = NextPluginSettings { root_dir: OneOrMany::Many(Vec::new()) };
        assert(settings.root_dirs() =~= Seq::<Seq<char>>::empty());
        settings
    }
}

impl NextPluginSettings {
    /// The root directories that the settings name, in the order written:
    /// the one directory of the single form, or those of the list.
    pub closed spec fn root_dirs(&self) -> Seq<Seq<char>> {
        match self.root_dir {
            OneOrMany::One(dir) => seq![dir@],
            OneOrMany::Many(dirs) => Seq::new(dirs@.len(), |i: int| dirs@[i]@),
        }
    }

    /// Whether the root directory is written as a list.
    pub closed spec fn is_list(&self) -> bool {
        self.root_dir is Many
    }

    /// Settings with the root directory as written.
    pub fn new(root_dir: OneOrMany<String>) -> (settings: NextPluginSettings)
        ensures
            settings.root_dirs() == match root_dir {
                OneOrMany::One(dir) => seq![dir@],
                OneOrMany::Many(dirs) => Seq::new(dirs@.len(), |i: int| dirs@[i]@),
            },
            settings.is_list() == (root_dir is Many),
    {
        NextPluginSettings { root_dir }
    }

    /// The root directories that the settings name. The single form gives
    /// a list of its own; the list form lends the list that the settings
    /// hold.
    pub fn get_root_dirs(&self) -> (dirs: Cow<'_, [String]>)
        ensures
            dirs@.len() == self.root_dirs().len(),
            forall|i: int| 0 <= i < dirs@.len() ==> (#[trigger] dirs@[i])@ == self.root_dirs()[i],
            dirs is Borrowed == self.is_list(),
    {
        match &self.root_dir {
            OneOrMany::One(dir) => {
                let mut list: Vec<String> = Vec::new();
                list.push(dir.clone());
                Cow::Owned(list)
            },
            OneOrMany::Many(dirs) => Cow::Borrowed(dirs.as_slice()),
        }
    }
}

} // verus!
