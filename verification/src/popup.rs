//! Popup content selection.
//!
//! The popup configuration itself — a static file mapping labels to
//! ordered `(kind, value)` entries — is loaded and parsed by the display
//! layer. This module owns the stable contract on top of it: the lookup
//! of a label in the store, and the rule that an unknown label, or one
//! with no entries, degrades to no popup rather than an error.

use vstd::prelude::*;

verus! {

/// A label-keyed store of popup content: for each label, an ordered list
/// of `(kind, value)` entries, in the order the configuration gave them.
pub struct PopupStore {
    pub entries: Vec<(String, Vec<(String, String)>)>,
}

/// The entry list of the first store row whose label matches, if any.
pub open spec fn lookup_entries(
    entries: Seq<(String, Vec<(String, String)>)>,
    label: Seq<char>,
) -> Option<Seq<(String, String)>>
    decreases entries.len(),
{
    if entries.len() == 0 {
        None
    } else if entries[0].0@ == label {
        Some(entries[0].1@)
    } else {
        lookup_entries(entries.drop_first(), label)
    }
}

/// The content a popup for `label` would show: the label's entries when
/// the label is known and has at least one entry, nothing otherwise.
pub open spec fn popup_data_for(
    entries: Seq<(String, Vec<(String, String)>)>,
    label: Seq<char>,
) -> Option<Seq<(String, String)>> {
    match lookup_entries(entries, label) {
        None => None,
        Some(items) => if items.len() == 0 {
            None
        } else {
            Some(items)
        },
    }
}

/// The content of one popup: ordered `(kind, value)` entries, never
/// empty.
pub struct Popup {
    data: Vec<(String, String)>,
}

impl Popup {
    /// The popup's entries.
    pub closed spec fn spec_data(self) -> Seq<(String, String)> {
        self.data@
    }

    /// A popup holds at least one entry.
    pub closed spec fn wf(self) -> bool {
        self.data@.len() > 0
    }

    /// The popup for `label`, if the store knows the label and gives it
    /// entries. An unknown label degrades to no popup.
    pub fn new(store: &PopupStore, label: &String) -> (r: Option<Popup>)
        ensures
            match popup_data_for(store.entries@, label@) {
                Some(items) => r matches Some(p) && p.spec_data() =~= items && p.wf(),
                None => r is None,
            },
    {
        let n = store.entries.len();
        let mut i: usize = 0;
        proof {
            assert(store.entries@.subrange(0, n as int) =~= store.entries@);
        }
        while i < n
            invariant
                0 <= i <= n,
                n == store.entries@.len(),
                lookup_entries(store.entries@, label@) == lookup_entries(
                    store.entries@.subrange(i as int, n as int),
                    label@,
                ),
            decreases n - i,
        {
            let ghost tail = store.entries@.subrange(i as int, n as int);
            proof {
                assert(tail[0] == store.entries@[i as int]);
                assert(tail.drop_first() =~= store.entries@.subrange(i as int + 1, n as int));
            }
            if String::eq(&store.entries[i].0, label) {
                let row = &store.entries[i].1;
                let mut data: Vec<(String, String)> = Vec::new();
                let m = row.len();
                let mut j: usize = 0;
                while j < m
                    invariant
                        0 <= j <= m,
                        m == row@.len(),
                        data@.len() == j,
                        forall|q: int| 0 <= q < j ==> #[trigger] data@[q] == row@[q],
                    decreases m - j,
                {
                    let kind = row[j].0.clone();
                    let value = row[j].1.clone();
                    data.push((kind, value));
                    j = j + 1;
                }
                proof {
                    assert(data@ =~= row@);
                    let tail = store.entries@.subrange(i as int, n as int);
                    assert(tail[0] == store.entries@[i as int]);
                    assert(lookup_entries(store.entries@, label@) == Some(row@));
                }
                if data.len() == 0 {
                    return None;
                }
                return Some(Popup { data });
            }
            i = i + 1;
        }
        None
    }

    /// The popup's entries.
    pub fn data(&self) -> (r: &Vec<(String, String)>)
        ensures
            r@ == self.spec_data(),
    {
        &self.data
    }
}

} // verus!
