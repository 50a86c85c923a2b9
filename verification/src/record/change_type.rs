//! What a record did to its table.

use vstd::prelude::*;

use crate::text;

verus! {

#[derive(Debug, Clone, Copy, PartialEq, Eq, Hash, Structural)]
pub enum ChangeType {
    /// Append-only operation
    AppendOnly,
    /// Insert operation
    Insert,
    /// Update operation containing the previous content of the updated row
    UpdateBefore,
    /// Update operation containing the new content of the updated row
    UpdateAfter,
    /// Delete operation
    Delete,
}

impl ChangeType {
    pub open spec fn text(self) -> Seq<char> {
        match self {
            ChangeType::AppendOnly => "+A"@,
            ChangeType::Insert => "+I"@,
            ChangeType::UpdateBefore => "-U"@,
            ChangeType::UpdateAfter => "+U"@,
            ChangeType::Delete => "-D"@,
        }
    }

    /// The byte that stands for the change.
    pub open spec fn byte(self) -> u8 {
        match self {
            ChangeType::AppendOnly => 0,
            ChangeType::Insert => 1,
            ChangeType::UpdateBefore => 2,
            ChangeType::UpdateAfter => 3,
            ChangeType::Delete => 4,
        }
    }

    /// The change that a byte stands for.
    pub open spec fn of_byte(value: u8) -> core::result::Result<ChangeType, Seq<char>> {
        if value == 0 {
            Ok(ChangeType::AppendOnly)
        } else if value == 1 {
            Ok(ChangeType::Insert)
        } else if value == 2 {
            Ok(ChangeType::UpdateBefore)
        } else if value == 3 {
            Ok(ChangeType::UpdateAfter)
        } else if value == 4 {
            Ok(ChangeType::Delete)
        } else {
            Err(
                "Unsupported byte value '"@ + text::nat_text(value as nat) + "' for change type"@,
            )
        }
    }

    /// Returns a short string representation of this ChangeType
    pub fn short_string(&self) -> (r: &'static str)
        ensures
            r@ == self.text(),
    {
        match self {
            ChangeType::AppendOnly => "+A",
            ChangeType::Insert => "+I",
            ChangeType::UpdateBefore => "-U",
            ChangeType::UpdateAfter => "+U",
            ChangeType::Delete => "-D",
        }
    }

    pub fn to_string(&self) -> (r: String)
        ensures
            r@ == self.text(),
    {
        self.short_string().to_owned()
    }

    /// Returns the byte value representation used for serialization
    pub fn to_byte_value(&self) -> (r: u8)
        ensures
            r == self.byte(),
    {
        match self {
            ChangeType::AppendOnly => 0,
            ChangeType::Insert => 1,
            ChangeType::UpdateBefore => 2,
            ChangeType::UpdateAfter => 3,
            ChangeType::Delete => 4,
        }
    }

    /// Creates a ChangeType from its byte value representation
    ///
    /// # Errors
    /// Returns an error if the byte value doesn't correspond to any ChangeType
    pub fn from_byte_value(value: u8) -> (r: core::result::Result<Self, String>)
        ensures
            match r {
                Ok(t) => ChangeType::of_byte(value) == Ok::<ChangeType, Seq<char>>(t),
                Err(e) => ChangeType::of_byte(value) == Err::<ChangeType, Seq<char>>(e@),
            },
    {
        match value {
            0 => Ok(ChangeType::AppendOnly),
            1 => Ok(ChangeType::Insert),
            2 => Ok(ChangeType::UpdateBefore),
            3 => Ok(ChangeType::UpdateAfter),
            4 => Ok(ChangeType::Delete),
            _ => Err(
                text::concat3(
                    "Unsupported byte value '",
                    text::u64_to_text(value as u64).as_str(),
                    "' for change type",
                ),
            ),
        }
    }
}

/// A change comes back from its byte, and no other byte stands for a change.
pub proof fn change_type_round_trip(change: ChangeType, value: u8)
    ensures
        ChangeType::of_byte(change.byte()) == Ok::<ChangeType, Seq<char>>(change),
        ChangeType::of_byte(value) matches Ok(c) ==> c.byte() == value,
        ChangeType::of_byte(value) is Ok <==> value <= 4,
{
}

/// The bytes that stand for a change are 0 to 4, and each stands for the one that
/// is written so.
pub proof fn bytes_of_changes(value: u8)
    ensures
        ChangeType::of_byte(value) is Ok <==> value <= 4,
        ChangeType::of_byte(value) matches Ok(change) ==> change.byte() == value,
{
}

} // verus!
