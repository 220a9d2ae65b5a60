//! Signing in through an outside provider: the user that is kept, the
//! credentials that come back from the provider, and the reading of the
//! client settings.

use crate::text::str_eq;
use vstd::prelude::*;
use vstd::string::*;

verus! {

/// A signed-in user.
#[derive(Debug)]
pub struct User {
    pub account: String,
    pub access_token: String,
}

impl Clone for User {
    fn clone(&self) -> (r: User)
        ensures
            r.account@ == self.account@,
            r.access_token@ == self.access_token@,
    {
        User { account: self.account.clone(), access_token: self.access_token.clone() }
    }
}

impl User {
    /// What identifies the user: the account.
    pub fn id(&self) -> (r: String)
        ensures
            r@ == self.account@,
    {
        self.account.clone()
    }

    /// What a session of the user is bound to: the bytes of the access
    /// token.
    pub fn session_auth_hash(&self) -> (r: &[u8])
        ensures
            r@ == vstd::utf8::encode_utf8(self.access_token@),
    {
        self.access_token.as_str().as_bytes()
    }
}

/// What the provider sends back: the authorization code, the state that was
/// sent out and the state that came back.
#[derive(Debug)]
pub struct Credentials {
    pub code: String,
    pub old_state: String,
    pub new_state: String,
}

impl Credentials {
    /// Whether the state came back as it was sent out. Where it did not, the
    /// request was tampered with and nobody is signed in.
    pub fn state_matches(&self) -> (r: bool)
        ensures
            r == (self.old_state@ == self.new_state@),
    {
        str_eq(self.old_state.as_str(), self.new_state.as_str())
    }
}

/// A value of the client settings, as far as they are read: a text, a list
/// of which the first item counts, or anything else.
#[derive(Debug)]
pub enum Setting {
    Text(String),
    List(Option<Box<Setting>>),
    Other,
}

/// Why a setting could not be read.
#[derive(Debug)]
pub enum PathError {
    /// The setting is missing.
    Component(String),
    /// The setting is an empty list.
    List(String),
    /// The setting is no text.
    Leaf(String),
}

/// A setting as plain values.
pub ghost enum SettingView {
    Text(Seq<char>),
    Empty,
    First(Box<SettingView>),
    Other,
}

/// A reading error as plain values.
pub ghost enum PathErrorView {
    Component(Seq<char>),
    List(Seq<char>),
    Leaf(Seq<char>),
}

impl View for PathError {
    type V = PathErrorView;

    open spec fn view(&self) -> PathErrorView {
        match self {
            PathError::Component(s) => PathErrorView::Component(s@),
            PathError::List(s) => PathErrorView::List(s@),
            PathError::Leaf(s) => PathErrorView::Leaf(s@),
        }
    }
}

impl Setting {
    /// The setting as plain values.
    pub open spec fn shape(self) -> SettingView
        decreases self,
    {
        match self {
            Setting::Text(s) => SettingView::Text(s@),
            Setting::List(None) => SettingView::Empty,
            Setting::List(Some(first)) => SettingView::First(Box::new(first.shape())),
            Setting::Other => SettingView::Other,
        }
    }
}

/// The shape of a setting that was looked up.
pub open spec fn looked_up(found: Option<&Setting>) -> Option<SettingView> {
    match found {
        Some(s) => Some(s.shape()),
        None => None,
    }
}

/// What reading returned, as plain values.
pub open spec fn read(r: Result<String, PathError>) -> Result<Seq<char>, PathErrorView> {
    match r {
        Ok(s) => Ok(s@),
        Err(e) => Err(e@),
    }
}

/// What reading the setting `field` owes: its text, or the text of the
/// first item where it is a list.
pub open spec fn component_spec(field: Seq<char>, found: Option<SettingView>) -> Result<
    Seq<char>,
    PathErrorView,
> {
    match found {
        None => Err(PathErrorView::Component(field)),
        Some(SettingView::Text(s)) => Ok(s),
        Some(SettingView::Empty) => Err(PathErrorView::List(field)),
        Some(SettingView::First(first)) => match *first {
            SettingView::Text(s) => Ok(s),
            _ => Err(PathErrorView::Leaf(field)),
        },
        Some(SettingView::Other) => Err(PathErrorView::Leaf(field)),
    }
}

/// Reads the setting `field`, which was looked up as `found`.
pub fn component(field: &str, found: Option<&Setting>) -> (r: Result<String, PathError>)
    ensures
        read(r) == component_spec(field@, looked_up(found)),
{
    proof {
        reveal_with_fuel(Setting::shape, 3);
    }
    match found {
        None => Err(PathError::Component(field.to_owned())),
        Some(Setting::Text(s)) => Ok(s.clone()),
        Some(Setting::List(None)) => Err(PathError::List(field.to_owned())),
        Some(Setting::List(Some(first))) => match &**first {
            Setting::Text(s) => Ok(s.clone()),
            _ => Err(PathError::Leaf(field.to_owned())),
        },
        Some(Setting::Other) => Err(PathError::Leaf(field.to_owned())),
    }
}

/// The sentence that a reading error is reported with.
pub fn path_error_message(e: &PathError) -> (r: String)
    ensures
        r@ == (match e@ {
            PathErrorView::Component(f) => "path error: missing "@ + f,
            PathErrorView::List(f) => "path error: empty list "@ + f,
            PathErrorView::Leaf(f) => "path error: type "@ + f,
        }),
{
    match e {
        PathError::Component(f) => {
            let mut r = "path error: missing ".to_owned();
            r.append(f.as_str());
            r
        },
        PathError::List(f) => {
            let mut r = "path error: empty list ".to_owned();
            r.append(f.as_str());
            r
        },
        PathError::Leaf(f) => {
            let mut r = "path error: type ".to_owned();
            r.append(f.as_str());
            r
        },
    }
}

} // verus!
