//! The status and type codes that the Luau runtime and its `require`
//! library exchange with their host, each with the integer the C interface
//! gives it.
#![allow(non_camel_case_types)]
use vstd::prelude::*;

verus! {

/// What a call into the Luau runtime ended with.
#[derive(Debug, Clone, Copy, PartialEq, Eq, Structural)]
pub enum lua_Status {
    LUA_OK,
    LUA_YIELD,
    LUA_ERRRUN,
    LUA_ERRSYNTAX,
    LUA_ERRMEM,
    LUA_ERRERR,
    LUA_BREAK,
}

/// The state of a coroutine.
#[derive(Debug, Clone, Copy, PartialEq, Eq, Structural)]
pub enum lua_CoStatus {
    LUA_CORUN,
    LUA_COSUS,
    LUA_CONOR,
    LUA_COFIN,
    LUA_COERR,
}

/// The type of a value on the Luau stack.
#[derive(Debug, Clone, Copy, PartialEq, Eq, Structural)]
pub enum lua_Type {
    LUA_TNONE,
    LUA_TNIL,
    LUA_TBOOLEAN,
    LUA_TLIGHTUSERDATA,
    LUA_TNUMBER,
    LUA_TVECTOR,
    LUA_TSTRING,
    LUA_TTABLE,
    LUA_TFUNCTION,
    LUA_TUSERDATA,
    LUA_TTHREAD,
    LUA_TBUFFER,
}

/// What resolving a path in a `require` came to.
#[derive(Debug, Clone, Copy, PartialEq, Eq, Structural)]
pub enum luarequire_NavigateResult {
    NAVIGATE_SUCCESS,
    NAVIGATE_AMBIGUOUS,
    NAVIGATE_NOT_FOUND,
}

/// What writing a `require` result into a host buffer came to.
#[derive(Debug, Clone, Copy, PartialEq, Eq, Structural)]
pub enum luarequire_WriteResult {
    WRITE_SUCCESS,
    WRITE_BUFFER_TOO_SMALL,
    WRITE_FAILURE,
}

impl lua_Status {
    /// The integer of the C interface: the variants count up from 0.
    pub open spec fn spec_code(self) -> int {
        match self {
            lua_Status::LUA_OK => 0,
            lua_Status::LUA_YIELD => 1,
            lua_Status::LUA_ERRRUN => 2,
            lua_Status::LUA_ERRSYNTAX => 3,
            lua_Status::LUA_ERRMEM => 4,
            lua_Status::LUA_ERRERR => 5,
            lua_Status::LUA_BREAK => 6,
        }
    }

    pub fn code(self) -> (c: i32)
        ensures
            c == self.spec_code(),
    {
        match self {
            lua_Status::LUA_OK => 0,
            lua_Status::LUA_YIELD => 1,
            lua_Status::LUA_ERRRUN => 2,
            lua_Status::LUA_ERRSYNTAX => 3,
            lua_Status::LUA_ERRMEM => 4,
            lua_Status::LUA_ERRERR => 5,
            lua_Status::LUA_BREAK => 6,
        }
    }
}

impl lua_CoStatus {
    /// The integer of the C interface: the variants count up from 0.
    pub open spec fn spec_code(self) -> int {
        match self {
            lua_CoStatus::LUA_CORUN => 0,
            lua_CoStatus::LUA_COSUS => 1,
            lua_CoStatus::LUA_CONOR => 2,
            lua_CoStatus::LUA_COFIN => 3,
            lua_CoStatus::LUA_COERR => 4,
        }
    }

    pub fn code(self) -> (c: i32)
        ensures
            c == self.spec_code(),
    {
        match self {
            lua_CoStatus::LUA_CORUN => 0,
            lua_CoStatus::LUA_COSUS => 1,
            lua_CoStatus::LUA_CONOR => 2,
            lua_CoStatus::LUA_COFIN => 3,
            lua_CoStatus::LUA_COERR => 4,
        }
    }
}

impl lua_Type {
    /// The integer of the C interface: `LUA_TNONE` is -1, and the others
    /// count up from 0.
    pub open spec fn spec_code(self) -> int {
        match self {
            lua_Type::LUA_TNONE => -1,
            lua_Type::LUA_TNIL => 0,
            lua_Type::LUA_TBOOLEAN => 1,
            lua_Type::LUA_TLIGHTUSERDATA => 2,
            lua_Type::LUA_TNUMBER => 3,
            lua_Type::LUA_TVECTOR => 4,
            lua_Type::LUA_TSTRING => 5,
            lua_Type::LUA_TTABLE => 6,
            lua_Type::LUA_TFUNCTION => 7,
            lua_Type::LUA_TUSERDATA => 8,
            lua_Type::LUA_TTHREAD => 9,
            lua_Type::LUA_TBUFFER => 10,
        }
    }

    pub fn code(self) -> (c: i32)
        ensures
            c == self.spec_code(),
    {
        match self {
            lua_Type::LUA_TNONE => -1,
            lua_Type::LUA_TNIL => 0,
            lua_Type::LUA_TBOOLEAN => 1,
            lua_Type::LUA_TLIGHTUSERDATA => 2,
            lua_Type::LUA_TNUMBER => 3,
            lua_Type::LUA_TVECTOR => 4,
            lua_Type::LUA_TSTRING => 5,
            lua_Type::LUA_TTABLE => 6,
            lua_Type::LUA_TFUNCTION => 7,
            lua_Type::LUA_TUSERDATA => 8,
            lua_Type::LUA_TTHREAD => 9,
            lua_Type::LUA_TBUFFER => 10,
        }
    }
}

impl luarequire_NavigateResult {
    /// The integer of the C interface: the variants count up from 0.
    pub open spec fn spec_code(self) -> int {
        match self {
            luarequire_NavigateResult::NAVIGATE_SUCCESS => 0,
            luarequire_NavigateResult::NAVIGATE_AMBIGUOUS => 1,
            luarequire_NavigateResult::NAVIGATE_NOT_FOUND => 2,
        }
    }

    pub fn code(self) -> (c: i32)
        ensures
            c == self.spec_code(),
    {
        match self {
            luarequire_NavigateResult::NAVIGATE_SUCCESS => 0,
            luarequire_NavigateResult::NAVIGATE_AMBIGUOUS => 1,
            luarequire_NavigateResult::NAVIGATE_NOT_FOUND => 2,
        }
    }
}

impl luarequire_WriteResult {
    /// The integer of the C interface: the variants count up from 0.
    pub open spec fn spec_code(self) -> int {
        match self {
            luarequire_WriteResult::WRITE_SUCCESS => 0,
            luarequire_WriteResult::WRITE_BUFFER_TOO_SMALL => 1,
            luarequire_WriteResult::WRITE_FAILURE => 2,
        }
    }

    pub fn code(self) -> (c: i32)
        ensures
            c == self.spec_code(),
    {
        match self {
            luarequire_WriteResult::WRITE_SUCCESS => 0,
            luarequire_WriteResult::WRITE_BUFFER_TOO_SMALL => 1,
            luarequire_WriteResult::WRITE_FAILURE => 2,
        }
    }
}

/// Distinct variants have distinct codes, as the C interface needs.
pub proof fn lemma_codes_distinct()
    ensures
        forall|a: lua_Status, b: lua_Status| a.spec_code() == b.spec_code() ==> a == b,
        forall|a: lua_CoStatus, b: lua_CoStatus| a.spec_code() == b.spec_code() ==> a == b,
        forall|a: lua_Type, b: lua_Type| a.spec_code() == b.spec_code() ==> a == b,
        forall|a: luarequire_NavigateResult, b: luarequire_NavigateResult|
            a.spec_code() == b.spec_code() ==> a == b,
        forall|a: luarequire_WriteResult, b: luarequire_WriteResult|
            a.spec_code() == b.spec_code() ==> a == b,
{
}

} // verus!
