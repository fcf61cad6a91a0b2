//! The user on whose behalf the program runs.

use vstd::prelude::*;

use crate::context::CurrentUser;
use crate::deps::UserContext;
use crate::error::AppError;

verus! {

/// The real user of this process; the call cannot fail. Nothing is said of the number, which the
/// system gives.
pub assume_specification[ users::get_current_uid ]() -> (uid: users::uid_t)
;

/// The real group of this process; the call cannot fail. Nothing is said of the number, which the
/// system gives.
pub assume_specification[ users::get_current_gid ]() -> (gid: users::gid_t)
;

/// The user of this process.
pub struct RealUserContext;

impl UserContext for RealUserContext {
    fn current_user(&self) -> (user: Result<CurrentUser, AppError>)
        ensures
            user matches Ok(found) && {
                &&& call_ensures(users::get_current_uid, (), found.uid)
                &&& call_ensures(users::get_current_gid, (), found.gid)
            },
    {
        let uid: u32 = users::get_current_uid();
        let gid: u32 = users::get_current_gid();
        Ok(CurrentUser { uid, gid })
    }
}

} // verus!
