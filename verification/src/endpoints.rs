//! The catalog of endpoints that a test run goes through.
//!
//! Each endpoint has a path template. A `{}` in a template stands for a
//! resource identifier, which the caller puts in before the request is made;
//! this crate hands the templates out as they are.

use vstd::prelude::*;

verus! {

/// The endpoints of the quiz API.
#[allow(non_camel_case_types)]
#[derive(Clone, Copy, Debug, PartialEq, Eq, Hash, Structural)]
pub enum endpoints {
    adminAuthRegister,
    adminAuthLogin,
    adminUserDetails,
    adminUserPassword,
    adminQuizList,
    adminQuiz,
    adminQuizId,
    adminQuizIdName,
    adminQuizIdDescription,
    /// Offered by the candidate only: the reference has no such endpoint.
    clear,
    adminAuthLogout,
    adminQuizTrash,
    adminQuizIdRestore,
    adminQuizTrashEmpty,
    adminQuizIdTransfer,
}

impl endpoints {
    /// The path template of this endpoint.
    pub open spec fn spec_template(self) -> Seq<char> {
        match self {
            endpoints::adminAuthRegister => "/admin/auth/register"@,
            endpoints::adminAuthLogin => "/admin/auth/login"@,
            endpoints::adminUserDetails => "/admin/user/details"@,
            endpoints::adminUserPassword => "/admin/user/password"@,
            endpoints::adminQuizList => "/admin/quiz/list"@,
            endpoints::adminQuiz => "/admin/quiz"@,
            endpoints::adminQuizId => "/admin/quiz/{}"@,
            endpoints::adminQuizIdName => "/admin/quiz/{}/name"@,
            endpoints::adminQuizIdDescription => "/admin/quiz/{}/description"@,
            endpoints::clear => "/clear"@,
            endpoints::adminAuthLogout => "/admin/auth/logout"@,
            endpoints::adminQuizTrash => "/admin/quiz/trash"@,
            endpoints::adminQuizIdRestore => "/admin/quiz/{}/restore"@,
            endpoints::adminQuizTrashEmpty => "/admin/quiz/trash/empty"@,
            endpoints::adminQuizIdTransfer => "/admin/quiz/{}/transfer"@,
        }
    }

    /// The path template of this endpoint.
    pub fn template(self) -> (path: &'static str)
        ensures
            path@ == self.spec_template(),
    {
        match self {
            endpoints::adminAuthRegister => "/admin/auth/register",
            endpoints::adminAuthLogin => "/admin/auth/login",
            endpoints::adminUserDetails => "/admin/user/details",
            endpoints::adminUserPassword => "/admin/user/password",
            endpoints::adminQuizList => "/admin/quiz/list",
            endpoints::adminQuiz => "/admin/quiz",
            endpoints::adminQuizId => "/admin/quiz/{}",
            endpoints::adminQuizIdName => "/admin/quiz/{}/name",
            endpoints::adminQuizIdDescription => "/admin/quiz/{}/description",
            endpoints::clear => "/clear",
            endpoints::adminAuthLogout => "/admin/auth/logout",
            endpoints::adminQuizTrash => "/admin/quiz/trash",
            endpoints::adminQuizIdRestore => "/admin/quiz/{}/restore",
            endpoints::adminQuizTrashEmpty => "/admin/quiz/trash/empty",
            endpoints::adminQuizIdTransfer => "/admin/quiz/{}/transfer",
        }
    }
}

} // verus!
