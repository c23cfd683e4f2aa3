//! Settings: those shared by all targets, and those of MIPS.
//!
//! MIPS has two boolean settings, `supports_lext` (the CPU has the Loongson
//! EXT instructions; off by default) and `enable_lext` (use them where the
//! CPU has them; on by default), and one predicate computed from them,
//! `use_lext`, which holds when both are on.

use vstd::prelude::*;
use vstd::string::*;
use crate::text::str_eq;

verus! {

/// Why a setting could not be set.
#[derive(Clone, Copy, Debug, PartialEq, Eq, Structural)]
pub enum SetError {
    /// There is no setting of that name.
    BadName,
    /// The value is not one that the setting can take.
    BadValue,
}

/// The truth value that a word stands for: `true`, `on`, `yes` and `1` for
/// true, `false`, `off`, `no` and `0` for false.
pub open spec fn bool_value(word: Seq<char>) -> Option<bool> {
    if word == "true"@ || word == "on"@ || word == "yes"@ || word == "1"@ {
        Some(true)
    } else if word == "false"@ || word == "off"@ || word == "no"@ || word == "0"@ {
        Some(false)
    } else {
        None
    }
}

/// The truth value that a word stands for.
pub fn parse_bool_value(word: &str) -> (r: Option<bool>)
    ensures
        r == bool_value(word@),
{
    if str_eq(word, "true") || str_eq(word, "on") || str_eq(word, "yes") || str_eq(word, "1") {
        Some(true)
    } else if str_eq(word, "false") || str_eq(word, "off") || str_eq(word, "no") || str_eq(
        word,
        "0",
    ) {
        Some(false)
    } else {
        None
    }
}

/// Number of the predicate `use_lext` among the MIPS predicates.
pub const PRED_USE_LEXT: u8 = 0;

/// How many predicates the MIPS settings compute.
pub const NUM_PREDICATES: u8 = 1;

/// The settings that every target has.
#[derive(Clone, Copy, Debug, PartialEq, Eq, Structural)]
pub struct SharedFlags {
    /// Whether position-independent code is wanted.
    pub is_pic: bool,
}

/// Collects the shared settings before they are frozen.
#[derive(Clone, Copy, Debug, PartialEq, Eq, Structural)]
pub struct SharedBuilder {
    pub is_pic: bool,
}

/// A builder of the shared settings, each at its default.
pub fn builder() -> (r: SharedBuilder)
    ensures
        r == (SharedBuilder { is_pic: false }),
{
    SharedBuilder { is_pic: false }
}

impl SharedFlags {
    /// Freezes the shared settings.
    pub fn new(builder: SharedBuilder) -> (r: SharedFlags)
        ensures
            r == (SharedFlags { is_pic: builder.is_pic }),
    {
        SharedFlags { is_pic: builder.is_pic }
    }
}

/// Collects the MIPS settings before they are frozen.
#[derive(Clone, Copy, Debug, PartialEq, Eq, Structural)]
pub struct Builder {
    pub supports_lext: bool,
    pub enable_lext: bool,
}

impl Builder {
    /// A builder of the MIPS settings, each at its default.
    pub fn new() -> (r: Builder)
        ensures
            r == (Builder { supports_lext: false, enable_lext: true }),
    {
        Builder { supports_lext: false, enable_lext: true }
    }

    /// The builder with the setting `name` at `value`, or an error where MIPS
    /// has no setting of that name.
    pub open spec fn with(self, name: Seq<char>, value: bool) -> Result<Builder, SetError> {
        if name == "supports_lext"@ {
            Ok(Builder { supports_lext: value, ..self })
        } else if name == "enable_lext"@ {
            Ok(Builder { enable_lext: value, ..self })
        } else {
            Err(SetError::BadName)
        }
    }

    /// Sets the setting `name` to `value`. Nothing changes where MIPS has no
    /// setting of that name.
    pub fn set_bool(&mut self, name: &str, value: bool) -> (r: Result<(), SetError>)
        ensures
            match old(self).with(name@, value) {
                Ok(set) => r is Ok && *final(self) == set,
                Err(e) => r == Err::<(), SetError>(e) && *final(self) == *old(self),
            },
    {
        if str_eq(name, "supports_lext") {
            self.supports_lext = value;
            Ok(())
        } else if str_eq(name, "enable_lext") {
            self.enable_lext = value;
            Ok(())
        } else {
            Err(SetError::BadName)
        }
    }

    /// Switches the setting `name` on.
    pub fn enable(&mut self, name: &str) -> (r: Result<(), SetError>)
        ensures
            match old(self).with(name@, true) {
                Ok(set) => r is Ok && *final(self) == set,
                Err(e) => r == Err::<(), SetError>(e) && *final(self) == *old(self),
            },
    {
        self.set_bool(name, true)
    }

    /// Sets the setting `name` to the truth value that `value` stands for.
    /// Nothing changes where there is no such setting, or where `value`
    /// stands for no truth value.
    pub fn set(&mut self, name: &str, value: &str) -> (r: Result<(), SetError>)
        ensures
            match (bool_value(value@), old(self).with(name@, true)) {
                (_, Err(e)) => r == Err::<(), SetError>(e) && *final(self) == *old(self),
                (None, Ok(_)) => r == Err::<(), SetError>(SetError::BadValue) && *final(self)
                    == *old(self),
                (Some(v), Ok(_)) => r is Ok && Ok::<Builder, SetError>(*final(self)) == old(
                    self,
                ).with(name@, v),
            },
    {
        if !str_eq(name, "supports_lext") && !str_eq(name, "enable_lext") {
            return Err(SetError::BadName);
        }
        match parse_bool_value(value) {
            Some(v) => self.set_bool(name, v),
            None => Err(SetError::BadValue),
        }
    }
}

/// The MIPS settings, frozen, with the predicates computed from them.
#[derive(Clone, Copy, Debug, PartialEq, Eq, Structural)]
pub struct Flags {
    pub supports_lext: bool,
    pub enable_lext: bool,
    /// The predicate `use_lext`, computed when the settings are frozen.
    pub use_lext: bool,
}

impl Flags {
    /// When the Loongson EXT instructions are used: the CPU has them and
    /// their use is enabled.
    pub open spec fn spec_use_lext(self) -> bool {
        self.use_lext
    }

    /// The predicate agrees with the settings it is computed from.
    pub open spec fn wf(self) -> bool {
        self.use_lext == (self.supports_lext && self.enable_lext)
    }

    /// The value of the predicate with the given number; no predicate of a
    /// number that is not in use holds.
    pub open spec fn spec_predicate(self, number: u8) -> bool {
        number == PRED_USE_LEXT && self.spec_use_lext()
    }

    /// Freezes the MIPS settings and computes the predicates.
    pub fn new(shared: &SharedFlags, builder: Builder) -> (r: Flags)
        ensures
            r.wf(),
            r.supports_lext == builder.supports_lext,
            r.enable_lext == builder.enable_lext,
            r.spec_use_lext() == (builder.supports_lext && builder.enable_lext),
    {
        Flags {
            supports_lext: builder.supports_lext,
            enable_lext: builder.enable_lext,
            use_lext: builder.supports_lext && builder.enable_lext,
        }
    }

    /// Whether the Loongson EXT instructions are used.
    pub fn use_lext(&self) -> (r: bool)
        ensures
            r == self.spec_use_lext(),
    {
        self.use_lext
    }

    /// The value of the predicate with the given number.
    pub fn predicate(&self, number: u8) -> (r: bool)
        ensures
            r == self.spec_predicate(number),
    {
        number == PRED_USE_LEXT && self.use_lext
    }
}

} // verus!
