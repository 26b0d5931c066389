use zap::luau_codes::{lua_CoStatus, lua_Status, lua_Type, luarequire_NavigateResult, luarequire_WriteResult};

#[test]
fn status_codes_count_from_zero() {
    assert_eq!(lua_Status::LUA_OK.code(), 0);
    assert_eq!(lua_Status::LUA_ERRSYNTAX.code(), 3);
    assert_eq!(lua_Status::LUA_BREAK.code(), 6);
    assert_eq!(lua_CoStatus::LUA_CORUN.code(), 0);
    assert_eq!(lua_CoStatus::LUA_COERR.code(), 4);
}

#[test]
fn type_codes_start_below_zero() {
    assert_eq!(lua_Type::LUA_TNONE.code(), -1);
    assert_eq!(lua_Type::LUA_TNIL.code(), 0);
    assert_eq!(lua_Type::LUA_TBOOLEAN.code(), 1);
    assert_eq!(lua_Type::LUA_TVECTOR.code(), 4);
    assert_eq!(lua_Type::LUA_TBUFFER.code(), 10);
}

#[test]
fn require_result_codes() {
    assert_eq!(luarequire_NavigateResult::NAVIGATE_SUCCESS.code(), 0);
    assert_eq!(luarequire_NavigateResult::NAVIGATE_NOT_FOUND.code(), 2);
    assert_eq!(luarequire_WriteResult::WRITE_BUFFER_TOO_SMALL.code(), 1);
    assert_eq!(luarequire_WriteResult::WRITE_FAILURE.code(), 2);
}
