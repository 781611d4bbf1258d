//! What the window watcher hands over: the focused window, and the names
//! under which its KWin script is written and run.

use vstd::prelude::*;

use crate::decimal::{decimal_int, push_decimal_i64};

verus! {

/// The window that just got the focus (or whose title changed).
#[derive(Debug, Clone)]
pub struct WindowEvent {
    pub app_id: String,
    pub title: String,
}

/// The name under which the watcher's script is loaded into KWin.
pub const SCRIPT_NAME: &'static str = "waytime_watcher";

/// The file name of the script in the temporary directory:
/// `{SCRIPT_NAME}.js`.
pub fn script_file_name() -> (name: String)
    ensures
        name@ == SCRIPT_NAME@ + ".js"@,
{
    let mut name = String::new();
    name.append(SCRIPT_NAME);
    name.append(".js");
    name
}

/// The D-Bus object path of the script that KWin loaded under `script_id`:
/// `/Scripting/Script{script_id}`.
pub fn script_object_path(script_id: i32) -> (path: String)
    ensures
        path@ == "/Scripting/Script"@ + decimal_int(script_id as int),
{
    let mut path = String::new();
    path.append("/Scripting/Script");
    push_decimal_i64(&mut path, script_id as i64);
    path
}

} // verus!
