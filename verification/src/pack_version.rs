//! The pack format of a datapack, and the demands that features make on it.

use crate::exception::{anchored, text_view, too_low_message, JMCError, JMCErrorType};
use crate::token::Token;
use crate::tokenizer::Tokenizer;
use vstd::prelude::*;

verus! {

/// The number that tells which version of the game a datapack is for.
pub type PackFormat = u32;

/// A version of the game: major, minor, patch.
pub type MinecraftVersion = (u16, u16, u16);

/// The pack format of a datapack.
#[derive(Debug, Clone, Copy, PartialEq, Eq, Structural)]
pub struct PackVersion {
    pub pack_format: PackFormat,
}

/// Whether the version `a` is later than the version `b`.
pub open spec fn is_after(a: MinecraftVersion, b: MinecraftVersion) -> bool {
    a.0 > b.0 || (a.0 == b.0 && (a.1 > b.1 || (a.1 == b.1 && a.2 > b.2)))
}

/// The pack format of the game version `v`: that of the latest threshold
/// that `v` is later than; none for a version that is later than no threshold.
pub open spec fn format_of(v: MinecraftVersion) -> Option<PackFormat> {
    if is_after(v, (1, 20, 5)) {
        Some(41)
    } else if is_after(v, (1, 20, 3)) {
        Some(26)
    } else if is_after(v, (1, 20, 2)) {
        Some(18)
    } else if is_after(v, (1, 20, 0)) {
        Some(15)
    } else if is_after(v, (1, 19, 4)) {
        Some(12)
    } else if is_after(v, (1, 19, 0)) {
        Some(10)
    } else if is_after(v, (1, 18, 2)) {
        Some(9)
    } else if is_after(v, (1, 18, 0)) {
        Some(8)
    } else if is_after(v, (1, 17, 0)) {
        Some(7)
    } else if is_after(v, (1, 16, 2)) {
        Some(6)
    } else if is_after(v, (1, 15, 0)) {
        Some(5)
    } else if is_after(v, (1, 13, 0)) {
        Some(4)
    } else {
        None
    }
}

/// Whether the version `a` is later than the version `b`.
fn later(a: MinecraftVersion, b: MinecraftVersion) -> (r: bool)
    ensures
        r == is_after(a, b),
{
    a.0 > b.0 || (a.0 == b.0 && (a.1 > b.1 || (a.1 == b.1 && a.2 > b.2)))
}

impl PackVersion {
    pub fn new(pack_format: PackFormat) -> (r: Self)
        ensures
            r.pack_format == pack_format,
    {
        Self { pack_format }
    }

    /// The pack format of a version of the game; fails for a version so
    /// early that it had no datapacks.
    pub fn try_from(minecraft_version: MinecraftVersion) -> (r: Result<Self, ()>)
        ensures
            match format_of(minecraft_version) {
                Some(pack_format) => r == Ok::<Self, ()>(PackVersion { pack_format }),
                None => r is Err,
            },
    {
        let v = minecraft_version;
        let pack_format: PackFormat = if later(v, (1, 20, 5)) {
            41
        } else if later(v, (1, 20, 3)) {
            26
        } else if later(v, (1, 20, 2)) {
            18
        } else if later(v, (1, 20, 0)) {
            15
        } else if later(v, (1, 19, 4)) {
            12
        } else if later(v, (1, 19, 0)) {
            10
        } else if later(v, (1, 18, 2)) {
            9
        } else if later(v, (1, 18, 0)) {
            8
        } else if later(v, (1, 17, 0)) {
            7
        } else if later(v, (1, 16, 2)) {
            6
        } else if later(v, (1, 15, 0)) {
            5
        } else if later(v, (1, 13, 0)) {
            4
        } else {
            return Err(());
        };
        Ok(Self { pack_format })
    }

    /// Whether this pack format falls short of `pack_format`. The format 0
    /// falls short of nothing.
    pub open spec fn is_below(self, pack_format: PackFormat) -> bool {
        self.pack_format != 0 && self.pack_format < pack_format
    }

    /// Demands the pack format `pack_format` for the feature at `token`:
    /// fails where this pack format falls short of it.
    ///
    /// * `pack_format` - the least pack format that will do
    /// * `token` - where the feature is used
    /// * `tokenizer` - the tokenizer that `token` is from
    /// * `suggestion` - what the failure suggests
    pub fn require(
        &self,
        pack_format: PackFormat,
        token: &Token,
        tokenizer: &Tokenizer,
        suggestion: Option<String>,
    ) -> (r: Result<(), JMCError>)
        ensures
            self.is_below(pack_format) ==> r is Err && r->Err_0@ == anchored(
                JMCErrorType::MinecraftVersionTooLow,
                too_low_message(pack_format),
                Some(token@),
                tokenizer@,
                false,
                true,
                false,
                text_view(suggestion),
            ),
            !self.is_below(pack_format) ==> r is Ok,
    {
        if self.pack_format == 0 {
            return Ok(());
        }
        if self.pack_format < pack_format {
            return Err(
                JMCError::minecraft_version_too_low(pack_format, Some(token), tokenizer, suggestion),
            );
        }
        Ok(())
    }
}

} // verus!
