//! Plain values that the presentation layer works with: tabs, game lines,
//! log levels, input modes, table rows and a selectable table.

use vstd::prelude::*;
use crate::addon_manager::{Addon, AddonView};
use crate::text::views_of;

verus! {

/// The two tabs of the interface.
#[derive(Copy, Clone, PartialEq, Eq, Structural, Debug)]
pub enum Tab {
    Installed,
    Search,
}

impl Tab {
    /// The tab at position `i`, where there is one.
    pub fn from(i: usize) -> (r: Option<Tab>)
        ensures
            i == 0 ==> r == Some(Tab::Installed),
            i == 1 ==> r == Some(Tab::Search),
            i > 1 ==> r is None,
    {
        match i {
            0 => Some(Tab::Installed),
            1 => Some(Tab::Search),
            _ => None,
        }
    }

    /// The number of tabs.
    pub fn len() -> (r: usize)
        ensures
            r == 2,
    {
        2
    }
}

/// The game line whose installation is managed.
#[derive(Copy, Clone, PartialEq, Eq, Structural, Debug)]
pub enum Version {
    Classic,
    Tbc,
    Retail,
}

/// The severity of a log message.
#[derive(Copy, Clone, PartialEq, Eq, Structural, Debug)]
pub enum LogLevel {
    Info,
    Warning,
    Error,
}

/// What keyboard input currently drives.
#[derive(Copy, Clone, PartialEq, Eq, Structural, Debug)]
pub enum Mode {
    Normal,
    Editing,
    Dialog,
}

/// One row of a table: the text of its cells, the archive it would fetch, and
/// the package it stands for.
#[derive(Debug)]
pub struct TableItem {
    pub cells: Vec<String>,
    pub download_url: String,
    pub addon: Addon,
}

/// The contents of a `TableItem`, as text values.
pub struct TableItemView {
    pub cells: Seq<Seq<char>>,
    pub download_url: Seq<char>,
    pub addon: AddonView,
}

impl View for TableItem {
    type V = TableItemView;

    open spec fn view(&self) -> TableItemView {
        TableItemView {
            cells: views_of(self.cells@),
            download_url: self.download_url@,
            addon: self.addon@,
        }
    }
}

/// The views of a sequence of rows.
pub open spec fn item_views(s: Seq<TableItem>) -> Seq<TableItemView> {
    s.map_values(|t: TableItem| t@)
}

/// A message shown over the interface, possibly asking for confirmation.
pub struct Dialog {
    pub text: String,
    pub confirmation: bool,
}

/// Rows with at most one of them selected.
pub struct StatefulTable {
    pub selected: Option<usize>,
    pub items: Vec<TableItem>,
}

impl StatefulTable {
    /// A table with no rows and no selection.
    pub fn new() -> (r: StatefulTable)
        ensures
            r.selected is None,
            r.items@.len() == 0,
    {
        StatefulTable { selected: None, items: Vec::new() }
    }

    /// Selects the row after the selected one, wrapping from the last row to
    /// the first; with no selection, the first row. An empty table selects
    /// nothing.
    pub fn next(&mut self)
        ensures
            final(self).items@ == old(self).items@,
            old(self).items@.len() == 0 ==> final(self).selected is None,
            old(self).items@.len() > 0 ==> final(self).selected == Some(
                match old(self).selected {
                    Some(i) => if i + 1 >= old(self).items@.len() {
                        0usize
                    } else {
                        (i + 1) as usize
                    },
                    None => 0usize,
                },
            ),
    {
        let n = self.items.len();
        if n == 0 {
            self.selected = None;
            return;
        }
        let i = match self.selected {
            Some(i) => if i >= n - 1 {
                0
            } else {
                i + 1
            },
            None => 0,
        };
        self.selected = Some(i);
    }

    /// Selects the row before the selected one, wrapping from the first row
    /// to the last; with no selection, the first row. An empty table selects
    /// nothing.
    pub fn previous(&mut self)
        ensures
            final(self).items@ == old(self).items@,
            old(self).items@.len() == 0 ==> final(self).selected is None,
            old(self).items@.len() > 0 ==> final(self).selected == Some(
                match old(self).selected {
                    Some(i) => if i == 0 {
                        (old(self).items@.len() - 1) as usize
                    } else {
                        (i - 1) as usize
                    },
                    None => 0usize,
                },
            ),
    {
        let n = self.items.len();
        if n == 0 {
            self.selected = None;
            return;
        }
        let i = match self.selected {
            Some(i) => if i == 0 {
                n - 1
            } else {
                i - 1
            },
            None => 0,
        };
        self.selected = Some(i);
    }

    /// The selected row, where the selection names one.
    pub fn get_selected(&self) -> (r: Option<&TableItem>)
        ensures
            match self.selected {
                Some(i) => if i < self.items@.len() {
                    r == Some(&self.items@[i as int])
                } else {
                    r is None
                },
                None => r is None,
            },
    {
        match self.selected {
            Some(i) => if i < self.items.len() {
                Some(&self.items[i])
            } else {
                None
            },
            None => None,
        }
    }
}

} // verus!
