//! The symbolic parts of a path of a manifest. They stand for places that
//! differ from one machine to another and are filled in when a game is
//! looked for.

use vstd::prelude::*;

verus! {

pub const ROOT: &'static str = "<root>";

pub const GAME: &'static str = "<game>";

pub const BASE: &'static str = "<base>";

pub const HOME: &'static str = "<home>";

pub const STORE_USER_ID: &'static str = "<storeUserId>";

pub const OS_USER_NAME: &'static str = "<osUserName>";

pub const WIN_APP_DATA: &'static str = "<winAppData>";

pub const WIN_LOCAL_APP_DATA: &'static str = "<winLocalAppData>";

pub const WIN_DOCUMENTS: &'static str = "<winDocuments>";

pub const WIN_PUBLIC: &'static str = "<winPublic>";

pub const WIN_PROGRAM_DATA: &'static str = "<winProgramData>";

pub const WIN_DIR: &'static str = "<winDir>";

pub const XDG_DATA: &'static str = "<xdgData>";

pub const XDG_CONFIG: &'static str = "<xdgConfig>";

} // verus!
