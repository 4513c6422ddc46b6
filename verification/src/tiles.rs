//! The tilesets of a configuration.

use vstd::prelude::*;

verus! {

/// The registry of tilesets that a configuration serves, named by where it
/// comes from: the tilesets that discovery finds under `root`, when it is
/// given `name_prefix` as the prefix of their names. Finding them is left
/// to the server; the configuration says where to look.
#[derive(Debug, Clone)]
pub struct Tilesets {
    /// The prefix of names that discovery starts with.
    pub name_prefix: String,
    /// The directory that the tilesets are found under.
    pub root: String,
}

/// What a `Tilesets` says.
pub struct TilesetsView {
    pub name_prefix: Seq<char>,
    pub root: Seq<char>,
}

impl View for Tilesets {
    type V = TilesetsView;

    open spec fn view(&self) -> TilesetsView {
        TilesetsView { name_prefix: self.name_prefix@, root: self.root@ }
    }
}

impl TilesetsView {
    /// The registry of all the tilesets under `root`, under their own names.
    pub open spec fn rooted_at(root: Seq<char>) -> TilesetsView {
        TilesetsView { name_prefix: Seq::empty(), root }
    }
}

impl Tilesets {
    /// The registry of all the tilesets under `root`, under their own names.
    pub fn rooted_at(root: String) -> (tilesets: Tilesets)
        ensures
            tilesets@ == TilesetsView::rooted_at(root@),
    {
        Tilesets { name_prefix: String::new(), root }
    }
}

} // verus!
