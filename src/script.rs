//! The scripting collaborator: Lua, through the mlua crate. The library
//! compiles source to bytecode, loads bytecode, and runs the verifier that
//! the loaded module hands back. What a script computes is not known here.

use crate::PipelineError;
use vstd::prelude::*;

verus! {

#[verifier::external_type_specification]
#[verifier::external_body]
pub struct ExLua(mlua::Lua);

#[verifier::external_type_specification]
#[verifier::external_body]
pub struct ExLuaFunction(mlua::Function);

#[verifier::external_type_specification]
#[verifier::external_body]
pub struct ExLuaError(mlua::Error);

/// Relies on mlua::Lua::new: a fresh Lua state with the safe standard
/// libraries.
#[verifier::external_body]
fn new_state() -> mlua::Lua {
    mlua::Lua::new()
}

/// Relies on mlua::Lua::load and mlua::Chunk::into_function: the chunk, text
/// or bytecode, is loaded as a function without being run. Lua does not check
/// the consistency of bytecode: crafted bytecode can crash the interpreter.
#[verifier::external_body]
fn load_function(lua: &mlua::Lua, chunk: &[u8]) -> Result<mlua::Function, mlua::Error> {
    lua.load(chunk).into_function()
}

/// Whether Lua accepts `source` as the text of a chunk.
pub uninterp spec fn lua_compiles(source: Seq<u8>) -> bool;

/// Relies on mlua::Lua::new, mlua::Lua::load with `ChunkMode::Text`,
/// mlua::Chunk::into_function and mlua::Function::dump: the source is parsed
/// as text in a fresh state, never as bytecode, so whether it compiles depends
/// on the source alone. Gives the function's bytecode, debug information
/// stripped, or `None` on a syntax error.
#[verifier::external_body]
fn compile_text(source: &[u8]) -> (r: Option<Vec<u8>>)
    ensures
        r is Some <==> lua_compiles(source@),
{
    let lua = mlua::Lua::new();
    match lua.load(source).set_mode(mlua::ChunkMode::Text).into_function() {
        Ok(f) => Some(f.dump(true)),
        Err(_) => None,
    }
}

/// Relies on mlua::Function::call: calls `f` with no arguments and takes a
/// function as its result. An error raised by the script comes back as `Err`;
/// a script that never ends makes this call never return.
#[verifier::external_body]
fn call_for_function(f: &mlua::Function) -> Result<mlua::Function, mlua::Error> {
    f.call::<mlua::Function>(())
}

/// Relies on mlua::Function::call: calls `f` with one string argument and
/// takes the bytes of the string it returns. An error raised by the script
/// comes back as `Err`; a script that never ends makes this call never return.
#[verifier::external_body]
fn call_with_string(f: &mlua::Function, arg: &str) -> Result<Vec<u8>, mlua::Error> {
    match f.call::<mlua::String>(arg) {
        Ok(s) => Ok(s.as_bytes().to_vec()),
        Err(e) => Err(e),
    }
}

/// Compiles script source, read as text, to bytecode in a fresh Lua state.
pub fn compile_script(source: &[u8]) -> (r: Result<Vec<u8>, PipelineError>)
    ensures
        r is Ok <==> lua_compiles(source@),
        r is Err ==> r == Err::<Vec<u8>, PipelineError>(PipelineError::Compile),
{
    match compile_text(source) {
        Some(bytecode) => Ok(bytecode),
        None => Err(PipelineError::Compile),
    }
}

/// Runs the verifier held by `bytecode` on `user_input`: the loaded module is
/// called with no arguments, and the function it returns is called with the
/// input. Gives the bytes of the string that the verifier returns.
pub fn run_verifier(bytecode: &[u8], user_input: &str) -> (r: Result<Vec<u8>, PipelineError>)
    ensures
        r is Err ==> r == Err::<Vec<u8>, PipelineError>(PipelineError::ScriptExecution),
{
    let lua = new_state();
    let module = match load_function(&lua, bytecode) {
        Ok(f) => f,
        Err(_) => return Err(PipelineError::ScriptExecution),
    };
    let verifier = match call_for_function(&module) {
        Ok(f) => f,
        Err(_) => return Err(PipelineError::ScriptExecution),
    };
    match call_with_string(&verifier, user_input) {
        Ok(out) => Ok(out),
        Err(_) => Err(PipelineError::ScriptExecution),
    }
}

} // verus!
