use vstd::prelude::*;

use crate::error::AppResult;

verus! {

/// A store of passwords, kept per scope and user name (the system keyring
/// in the desktop shell).  An implementation may say, through the three
/// outcome relations, which answers it gives; one that does not promises
/// nothing, and every answer counts as possible.
pub trait CredentialStore {
    /// `r` is an answer that loading the password of `username` in `scope`
    /// may give.
    open spec fn load_outcome(&self, scope: Seq<char>, username: Seq<char>, r: AppResult<Option<String>>) -> bool {
        true
    }

    /// `r` is an answer that saving `password` for `username` in `scope` may
    /// give.
    open spec fn save_outcome(&self, scope: Seq<char>, username: Seq<char>, password: Seq<char>, r: AppResult<()>) -> bool {
        true
    }

    /// `r` is an answer that deleting the password of `username` in `scope`
    /// may give.
    open spec fn delete_outcome(&self, scope: Seq<char>, username: Seq<char>, r: AppResult<()>) -> bool {
        true
    }

    /// Loads the password of `username` in `scope`, `None` when there is none.
    fn load_password(&self, scope: &str, username: &str) -> (r: AppResult<Option<String>>)
        ensures
            self.load_outcome(scope@, username@, r),
    ;

    /// Saves `password` for `username` in `scope`.
    fn save_password(&self, scope: &str, username: &str, password: &str) -> (r: AppResult<()>)
        ensures
            self.save_outcome(scope@, username@, password@, r),
    ;

    /// Deletes the password of `username` in `scope`.
    fn delete_password(&self, scope: &str, username: &str) -> (r: AppResult<()>)
        ensures
            self.delete_outcome(scope@, username@, r),
    ;
}

} // verus!
