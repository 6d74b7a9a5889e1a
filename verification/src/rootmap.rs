//! The root window properties that tell clients where the background is.
//!
//! Clients that paint a pseudo-transparent background look up the pixmap of
//! the root window under two properties. When the background is replaced,
//! both have to name the new pixmap, and the client that holds the old one
//! has to go if both properties named it. Reading and writing the properties
//! is the caller's business; what to do with what was read is decided here.

use vstd::prelude::*;

verus! {

/// What reading a property of the root window gave.
#[derive(Debug, Clone, Copy, PartialEq, Eq, Structural)]
pub struct Property {
    /// The property has the type of a pixmap.
    pub is_pixmap: bool,
    /// The first value of the property, if it has one.
    pub value: Option<u32>,
}

/// One property to be set to the new background.
#[derive(Debug, Clone, Copy, PartialEq, Eq, Structural)]
pub struct Change {
    /// The atom that names the property.
    pub atom: u32,
    /// The pixmap that the property is to name.
    pub pixmap: u32,
}

/// The atoms of the two properties, as far as the server knows them.
#[derive(Debug, Clone, Copy, PartialEq, Eq, Structural)]
pub struct RootWindowProperties {
    pub root_pixmap: Option<u32>,
    pub esetroot_pixmap: Option<u32>,
}

impl RootWindowProperties {
    /// The pixmap that both properties name, if both atoms are known and
    /// both properties hold a pixmap.
    pub open spec fn stale(self, root: Property, esetroot: Property) -> Option<u32> {
        if self.root_pixmap is Some && self.esetroot_pixmap is Some && root.is_pixmap
            && esetroot.is_pixmap && root.value is Some && root.value == esetroot.value {
            root.value
        } else {
            None
        }
    }

    /// The changes that make both properties name `drawable`, the root
    /// pixmap first.
    pub open spec fn changes(self, drawable: u32) -> Seq<Change> {
        let first = match self.root_pixmap {
            Some(atom) => seq![Change { atom, pixmap: drawable }],
            None => Seq::empty(),
        };
        let second = match self.esetroot_pixmap {
            Some(atom) => seq![Change { atom, pixmap: drawable }],
            None => Seq::empty(),
        };
        first + second
    }

    pub fn new(root_pixmap: Option<u32>, esetroot_pixmap: Option<u32>) -> (properties: Self)
        ensures
            properties == (RootWindowProperties { root_pixmap, esetroot_pixmap }),
    {
        RootWindowProperties { root_pixmap, esetroot_pixmap }
    }

    /// The pixmap whose client has to be killed before the background is
    /// replaced: the one that both properties name.
    pub fn cleanse_esetroot(&self, root: Property, esetroot: Property) -> (kill: Option<u32>)
        ensures
            kill == self.stale(root, esetroot),
    {
        if self.root_pixmap.is_none() || self.esetroot_pixmap.is_none() {
            return None;
        }
        if !root.is_pixmap || !esetroot.is_pixmap {
            return None;
        }
        match (root.value, esetroot.value) {
            (Some(pm1), Some(pm2)) => {
                if pm1 == pm2 {
                    Some(pm1)
                } else {
                    None
                }
            },
            _ => None,
        }
    }

    /// The properties to set so that the background is found under
    /// `drawable`: each of the two whose atom is known.
    pub fn update_background(&self, drawable: u32) -> (changes: Vec<Change>)
        ensures
            changes@ == self.changes(drawable),
    {
        let mut changes: Vec<Change> = Vec::new();
        if let Some(atom) = self.root_pixmap {
            changes.push(Change { atom, pixmap: drawable });
        }
        if let Some(atom) = self.esetroot_pixmap {
            changes.push(Change { atom, pixmap: drawable });
        }
        changes
    }
}

} // verus!
