//! Query-path state kept as bitmasks over record types: which types the
//! operator has disabled, and which types have at least one local record.

use vstd::prelude::*;
use crate::json::{json_string_list, parse_string_list};
use crate::text::{chars_of, push_chars, push_str, string_of};
use crate::message::{
    law_record_type_bits_distinct, mask_bit_of, parse_record_type, record_type_of_text,
    RecordType,
};

verus! {

broadcast use vstd::string::group_string_axioms;

/// The views of a sequence of strings.
pub open spec fn strings_view(names: Seq<String>) -> Seq<Seq<char>> {
    names.map_values(|s: String| s@)
}

/// Every name names a record type.
pub open spec fn all_known(names: Seq<Seq<char>>) -> bool {
    forall|i: int| 0 <= i < names.len() ==> (#[trigger] record_type_of_text(names[i])).is_some()
}

/// The union of the bits of the named record types.
pub open spec fn names_mask(names: Seq<Seq<char>>) -> u16
    decreases names.len(),
{
    if names.len() == 0 {
        0
    } else {
        names_mask(names.drop_last()) | match record_type_of_text(names.last()) {
            Some(t) => mask_bit_of(t),
            None => 0,
        }
    }
}

/// The message reporting an unknown record type name.
pub open spec fn unknown_type_message(name: Seq<char>) -> Seq<char> {
    "Unknown record type '"@ + name + "'"@
}

/// Query-path state that would otherwise require a database round trip.
pub struct DataPlaneState {
    /// Record types the operator has disabled.
    disabled_types: u16,
    /// Record types for which at least one enabled local record exists.
    local_record_types: u16,
}

impl DataPlaneState {
    pub closed spec fn disabled_mask(&self) -> u16 {
        self.disabled_types
    }

    pub closed spec fn local_mask(&self) -> u16 {
        self.local_record_types
    }

    /// State with nothing disabled and no local records known.
    pub fn new() -> (s: DataPlaneState)
        ensures
            s.disabled_mask() == 0,
            s.local_mask() == 0,
    {
        DataPlaneState { disabled_types: 0, local_record_types: 0 }
    }

    /// Whether the operator has disabled this record type.
    pub fn is_type_disabled(&self, record_type: RecordType) -> (r: bool)
        ensures
            r == (self.disabled_mask() & mask_bit_of(record_type) != 0),
    {
        self.disabled_types & record_type.mask_bit() != 0
    }

    /// Whether a local record of this type could exist.
    pub fn may_have_local_record(&self, record_type: RecordType) -> (r: bool)
        ensures
            r == (self.local_mask() & mask_bit_of(record_type) != 0),
    {
        self.local_record_types & record_type.mask_bit() != 0
    }

    /// Stores the disabled record type mask.
    pub fn set_disabled_types(&mut self, mask: u16)
        ensures
            final(self).disabled_mask() == mask,
            final(self).local_mask() == old(self).local_mask(),
    {
        self.disabled_types = mask;
    }

    /// Stores the local record type mask.
    pub fn set_local_record_types(&mut self, mask: u16)
        ensures
            final(self).local_mask() == mask,
            final(self).disabled_mask() == old(self).disabled_mask(),
    {
        self.local_record_types = mask;
    }

    /// Replaces the disabled types by the named ones; unknown names are
    /// reported and leave the state unchanged.
    pub fn apply_disabled_type_names(&mut self, names: &[String]) -> (r: Result<(), String>)
        ensures
            r is Ok == all_known(strings_view(names@)),
            r is Ok ==> final(self).disabled_mask() == names_mask(strings_view(names@)),
            r is Err ==> final(self).disabled_mask() == old(self).disabled_mask(),
            final(self).local_mask() == old(self).local_mask(),
    {
        match Self::mask_from_names(names) {
            Ok(mask) => {
                self.disabled_types = mask;
                Ok(())
            },
            Err(e) => Err(e),
        }
    }

    /// Replaces the disabled types by the stored setting: none stored
    /// disables nothing; a list that does not read as JSON, or that names
    /// an unknown type, is reported and leaves the state unchanged.
    pub fn apply_disabled_setting(&mut self, raw: Option<&str>) -> (r: Result<(), String>)
        ensures
            final(self).local_mask() == old(self).local_mask(),
            match raw {
                None => r is Ok && final(self).disabled_mask() == 0,
                Some(text) => match json_string_list(text@) {
                    Err(e) => (r matches Err(m) && m@ == "Invalid disabled_record_types: "@ + e)
                        && final(self).disabled_mask() == old(self).disabled_mask(),
                    Ok(names) => {
                        &&& r is Ok == all_known(names)
                        &&& r is Ok ==> final(self).disabled_mask() == names_mask(names)
                        &&& r is Err ==> final(self).disabled_mask() == old(self).disabled_mask()
                    },
                },
            },
    {
        match raw {
            None => {
                self.disabled_types = 0;
                Ok(())
            },
            Some(text) => match parse_string_list(text) {
                Err(e) => {
                    let mut v: Vec<char> = Vec::new();
                    push_str(&mut v, "Invalid disabled_record_types: ");
                    push_chars(&mut v, &chars_of(e.as_str()));
                    Err(string_of(&v))
                },
                Ok(names) => self.apply_disabled_type_names(names.as_slice()),
            },
        }
    }

    /// Replaces the local record types by the named ones; unknown names are
    /// reported and leave the state unchanged.
    pub fn apply_local_record_type_names(&mut self, names: &[String]) -> (r: Result<(), String>)
        ensures
            r is Ok == all_known(strings_view(names@)),
            r is Ok ==> final(self).local_mask() == names_mask(strings_view(names@)),
            r is Err ==> final(self).local_mask() == old(self).local_mask(),
            final(self).disabled_mask() == old(self).disabled_mask(),
    {
        match Self::mask_from_names(names) {
            Ok(mask) => {
                self.local_record_types = mask;
                Ok(())
            },
            Err(e) => Err(e),
        }
    }

    /// Builds a bitmask from record type names, rejecting the first unknown one.
    pub fn mask_from_names(names: &[String]) -> (r: Result<u16, String>)
        ensures
            match r {
                Ok(m) => all_known(strings_view(names@)) && m == names_mask(strings_view(names@)),
                Err(msg) => exists|k: int|
                    0 <= k < names@.len() && record_type_of_text(#[trigger] names@[k]@).is_none()
                        && (forall|j: int|
                        0 <= j < k ==> record_type_of_text(#[trigger] names@[j]@).is_some())
                        && msg@ == unknown_type_message(names@[k]@),
            },
            r is Ok == all_known(strings_view(names@)),
    {
        let ghost ns = strings_view(names@);
        let mut mask: u16 = 0;
        let mut i: usize = 0;
        while i < names.len()
            invariant
                ns == strings_view(names@),
                0 <= i <= names@.len(),
                all_known(ns.subrange(0, i as int)),
                mask == names_mask(ns.subrange(0, i as int)),
            decreases names@.len() - i,
        {
            assert(ns.subrange(0, i + 1).drop_last() =~= ns.subrange(0, i as int));
            match parse_record_type(names[i].as_str()) {
                Ok(t) => {
                    mask = mask | t.mask_bit();
                    assert(all_known(ns.subrange(0, i + 1))) by {
                        assert forall|j: int| 0 <= j < i + 1 implies (#[trigger] record_type_of_text(
                            ns.subrange(0, i + 1)[j],
                        )).is_some() by {
                            if j < i {
                                assert(ns.subrange(0, i + 1)[j] == ns.subrange(0, i as int)[j]);
                            }
                        }
                    }
                },
                Err(_) => {
                    let mut msg: String = "Unknown record type '".to_owned();
                    msg.append(names[i].as_str());
                    msg.append("'");
                    proof {
                        assert forall|j: int| 0 <= j < i implies record_type_of_text(
                            #[trigger] names@[j]@,
                        ).is_some() by {
                            assert(ns.subrange(0, i as int)[j] == names@[j]@);
                        }
                        assert(ns[i as int] == names@[i as int]@);
                        assert(!all_known(ns));
                    }
                    return Err(msg);
                },
            }
            i = i + 1;
        }
        assert(ns.subrange(0, names@.len() as int) =~= ns);
        Ok(mask)
    }
}

/// A record type's bit is in the mask of some names exactly when one of the
/// names names that type.
pub proof fn law_names_mask_membership(names: Seq<Seq<char>>, t: RecordType)
    ensures
        (names_mask(names) & mask_bit_of(t) != 0) == (exists|i: int|
            0 <= i < names.len() && record_type_of_text(#[trigger] names[i]) == Some(t)),
    decreases names.len(),
{
    if names.len() == 0 {
        assert(0u16 & mask_bit_of(t) == 0) by (bit_vector);
    } else {
        let prefix = names.drop_last();
        law_names_mask_membership(prefix, t);
        let m = names_mask(prefix);
        let b: u16 = match record_type_of_text(names.last()) {
            Some(u) => mask_bit_of(u),
            None => 0,
        };
        let bt = mask_bit_of(t);
        assert(((m | b) & bt != 0) == ((m & bt != 0) || (b & bt != 0))) by (bit_vector);
        match record_type_of_text(names.last()) {
            Some(u) => {
                law_record_type_bits_distinct(u, t);
            },
            None => {
                assert(0u16 & bt == 0) by (bit_vector);
            },
        }
        if exists|i: int| 0 <= i < prefix.len() && record_type_of_text(#[trigger] prefix[i]) == Some(t) {
            let i = choose|i: int| 0 <= i < prefix.len() && record_type_of_text(#[trigger] prefix[i]) == Some(t);
            assert(names[i] == prefix[i]);
        }
        if exists|i: int| 0 <= i < names.len() && record_type_of_text(#[trigger] names[i]) == Some(t) {
            let i = choose|i: int| 0 <= i < names.len() && record_type_of_text(#[trigger] names[i]) == Some(t);
            if i < names.len() - 1 {
                assert(prefix[i] == names[i]);
            }
        }
    }
}

/// After the disabled types are set from some names, a record type is
/// disabled exactly when one of the names names it.
pub proof fn law_disabled_lookup_matches_names(
    state: DataPlaneState,
    names: Seq<Seq<char>>,
    t: RecordType,
)
    requires
        state.disabled_mask() == names_mask(names),
    ensures
        (state.disabled_mask() & mask_bit_of(t) != 0) == (exists|i: int|
            0 <= i < names.len() && record_type_of_text(#[trigger] names[i]) == Some(t)),
{
    law_names_mask_membership(names, t);
}

impl Default for DataPlaneState {
    fn default() -> (s: DataPlaneState)
        ensures
            s.disabled_mask() == 0,
            s.local_mask() == 0,
    {
        Self::new()
    }
}

} // verus!
