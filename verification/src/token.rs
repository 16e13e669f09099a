//! Credentials: the validated user token a session runs on, and the
//! per-profile stored form that is persisted to disk.

use vstd::prelude::*;

verus! {

/// A validated user token together with the account it belongs to.
#[derive(Clone, Debug, PartialEq)]
pub struct Token {
    pub access_token: String,
    pub refresh_token: Option<String>,
    pub login: String,
    pub user_id: String,
}

#[verifier::ext_equal]
pub ghost struct SpecToken {
    pub access_token: Seq<char>,
    pub refresh_token: Option<Seq<char>>,
    pub login: Seq<char>,
    pub user_id: Seq<char>,
}

impl DeepView for Token {
    type V = SpecToken;

    open spec fn deep_view(&self) -> SpecToken {
        SpecToken {
            access_token: self.access_token.deep_view(),
            refresh_token: self.refresh_token.deep_view(),
            login: self.login.deep_view(),
            user_id: self.user_id.deep_view(),
        }
    }
}

impl Token {
    /// A field-wise copy.
    pub fn clone_token(&self) -> (r: Token)
        ensures
            r.deep_view() == self.deep_view(),
    {
        Token {
            access_token: crate::config::clone_string(&self.access_token),
            refresh_token: crate::config::clone_opt_string(&self.refresh_token),
            login: crate::config::clone_string(&self.login),
            user_id: crate::config::clone_string(&self.user_id),
        }
    }

    /// The stored form of this token.
    pub fn to_stored(&self) -> (r: StoredToken)
        ensures
            r.deep_view() == (SpecStoredToken {
                access_token: self.deep_view().access_token,
                refresh_token: self.deep_view().refresh_token,
            }),
    {
        StoredToken {
            access_token: crate::config::clone_string(&self.access_token),
            refresh_token: crate::config::clone_opt_string(&self.refresh_token),
        }
    }
}

/// The persisted credential for one profile.
#[derive(Clone, Debug, PartialEq)]
pub struct StoredToken {
    pub access_token: String,
    pub refresh_token: Option<String>,
}

#[verifier::ext_equal]
pub ghost struct SpecStoredToken {
    pub access_token: Seq<char>,
    pub refresh_token: Option<Seq<char>>,
}

impl DeepView for StoredToken {
    type V = SpecStoredToken;

    open spec fn deep_view(&self) -> SpecStoredToken {
        SpecStoredToken {
            access_token: self.access_token.deep_view(),
            refresh_token: self.refresh_token.deep_view(),
        }
    }
}

} // verus!
