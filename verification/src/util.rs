use vstd::prelude::*;

verus! {

/// The name of a PHP error level, as `errno_2_str` reports it.
pub open spec fn errno_name(errno: i64) -> Seq<char> {
    if errno == 1 {
        "E_ERROR"@
    } else if errno == 2 {
        "E_WARNING"@
    } else if errno == 4 {
        "E_PARSE"@
    } else if errno == 8 {
        "E_NOTICE"@
    } else if errno == 16 {
        "E_CORE_ERROR"@
    } else if errno == 32 {
        "E_CORE_WARNING"@
    } else if errno == 64 {
        "E_COMPILE_ERROR"@
    } else if errno == 128 {
        "E_COMPILE_WARNING"@
    } else if errno == 256 {
        "E_USER_ERROR"@
    } else if errno == 512 {
        "E_USER_WARNING"@
    } else if errno == 1024 {
        "E_USER_NOTICE"@
    } else if errno == 2048 {
        "E_STRICT"@
    } else if errno == 4096 {
        "E_RECOVERABLE_ERROR"@
    } else if errno == 8192 {
        "E_DEPRECATED"@
    } else if errno == 16384 {
        "E_USER_DEPRECATED"@
    } else if errno == 32767 {
        "E_ALL"@
    } else {
        "UNKNOWN"@
    }
}

/// Maps a PHP error level to the name of its constant, or `UNKNOWN`.
pub fn errno_2_str(errno: i64) -> (res: String)
    ensures
        res@ == errno_name(errno),
{
    let name: &str = match errno {
        1 => "E_ERROR",
        2 => "E_WARNING",
        4 => "E_PARSE",
        8 => "E_NOTICE",
        16 => "E_CORE_ERROR",
        32 => "E_CORE_WARNING",
        64 => "E_COMPILE_ERROR",
        128 => "E_COMPILE_WARNING",
        256 => "E_USER_ERROR",
        512 => "E_USER_WARNING",
        1024 => "E_USER_NOTICE",
        2048 => "E_STRICT",
        4096 => "E_RECOVERABLE_ERROR",
        8192 => "E_DEPRECATED",
        16384 => "E_USER_DEPRECATED",
        32767 => "E_ALL",
        _ => "UNKNOWN",
    };
    name.to_owned()
}

} // verus!
