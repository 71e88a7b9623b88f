//! The controller's startup configuration: serial port paths, the cleaning
//! switch, and the slot-to-coordinates table.

use vstd::prelude::*;
use vstd::string::*;

use crate::text::parts_view;
use crate::text::spec_split;
use crate::text::split_str;
use crate::text::str_eq;

verus! {

/// Marker for the configuration table that maps slot identifiers to
/// tube-holder coordinates.
pub struct TubeHolderCoordinates {}

/// The controller's configuration, loaded once at startup and read-only
/// afterwards. The unverified shell reads the configuration file and hands
/// this record in.
pub struct Config {
    /// Serial device path of the host link.
    pub application_port_path: String,
    /// Serial device path of the pump bus.
    pub pump_port_path: String,
    /// Serial device path of the router.
    pub router_port_path: String,
    /// Whether each liquid application is followed by the cleaning sequence.
    pub constant_cleaning: bool,
    /// Slot identifier to coordinate text; each value has the shape
    /// `x:y:z`, three colon-separated signed device coordinates.
    pub tube_holder_coordinates: Vec<(String, String)>,
}

/// The coordinate table as a sequence of key and value views.
pub open spec fn coords_view(entries: Seq<(String, String)>) -> Seq<(Seq<char>, Seq<char>)> {
    entries.map_values(|e: (String, String)| (e.0@, e.1@))
}

/// The value for `key`: the first entry whose key matches, if any.
pub open spec fn spec_lookup(entries: Seq<(Seq<char>, Seq<char>)>, key: Seq<char>) -> Option<
    Seq<char>,
>
    decreases entries.len(),
{
    if entries.len() == 0 {
        None
    } else if entries[0].0 == key {
        Some(entries[0].1)
    } else {
        spec_lookup(entries.drop_first(), key)
    }
}

/// A lookup skips over entries whose keys do not match.
proof fn lemma_lookup_skip(entries: Seq<(Seq<char>, Seq<char>)>, key: Seq<char>, i: int)
    requires
        0 <= i <= entries.len(),
        forall|k: int| 0 <= k < i ==> entries[k].0 != key,
    ensures
        spec_lookup(entries, key) == spec_lookup(entries.skip(i), key),
    decreases i,
{
    if i > 0 {
        assert(entries[0].0 != key);
        let d = entries.drop_first();
        assert forall|k: int| 0 <= k < i - 1 implies d[k].0 != key by {
            assert(d[k] == entries[k + 1]);
        }
        lemma_lookup_skip(d, key, i - 1);
        assert(d.skip(i - 1) =~= entries.skip(i));
    } else {
        assert(entries.skip(0) =~= entries);
    }
}

impl Config {
    /// The coordinate text for a slot identifier, if the table has an entry
    /// for it.
    pub fn lookup_coordinates(&self, slot: &str) -> (r: Option<String>)
        ensures
            match r {
                Some(v) => spec_lookup(coords_view(self.tube_holder_coordinates@), slot@) == Some(
                    v@,
                ),
                None => spec_lookup(coords_view(self.tube_holder_coordinates@), slot@) is None,
            },
    {
        let ghost entries = coords_view(self.tube_holder_coordinates@);
        let n = self.tube_holder_coordinates.len();
        let mut i: usize = 0;
        while i < n
            invariant
                i <= n,
                n == self.tube_holder_coordinates@.len(),
                entries == coords_view(self.tube_holder_coordinates@),
                forall|k: int| 0 <= k < i ==> entries[k].0 != slot@,
            decreases n - i,
        {
            proof {
                assert(entries[i as int] == (self.tube_holder_coordinates@[i as int].0@,
                self.tube_holder_coordinates@[i as int].1@));
            }
            let entry = &self.tube_holder_coordinates[i];
            if str_eq(entry.0.as_str(), slot) {
                proof {
                    lemma_lookup_skip(entries, slot@, i as int);
                    assert(entries.skip(i as int)[0] == entries[i as int]);
                    assert(entries.skip(i as int).len() > 0);
                }
                return Some(entry.1.clone());
            }
            i = i + 1;
        }
        proof {
            lemma_lookup_skip(entries, slot@, n as int);
            assert(entries.skip(n as int) =~= Seq::<(Seq<char>, Seq<char>)>::empty());
        }
        None
    }
}

/// The three coordinate fields of a value of shape `x:y:z`, if the value is
/// well formed: splitting on colons yields exactly three fields.
pub fn split_coordinates(value: &str) -> (r: Option<(String, String, String)>)
    ensures
        match r {
            Some(t) => spec_split(value@, ':') == seq![t.0@, t.1@, t.2@],
            None => spec_split(value@, ':').len() != 3,
        },
{
    let mut parts = split_str(value, ':');
    proof {
        assert(parts_view(parts@).len() == parts@.len());
    }
    if parts.len() != 3 {
        return None;
    }
    proof {
        assert(parts_view(parts@)[0] == parts@[0]@);
        assert(parts_view(parts@)[1] == parts@[1]@);
        assert(parts_view(parts@)[2] == parts@[2]@);
    }
    let z = parts.pop().unwrap();
    let y = parts.pop().unwrap();
    let x = parts.pop().unwrap();
    proof {
        assert(spec_split(value@, ':') =~= seq![x@, y@, z@]);
    }
    Some((x, y, z))
}

} // verus!
