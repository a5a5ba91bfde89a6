//! User profile messages and sign-in helpers.
use vstd::prelude::*;
use vstd::string::StringExecFns;

verus! {

/// A session token.
#[derive(Debug, Default)]
pub struct UserTokenPB {
    pub token: String,
}

/// Where the user's data is stored.
#[derive(Debug, Default)]
pub struct UserSettingPB {
    pub user_folder: String,
}

/// The profile of a signed-in user.
#[derive(Debug, Default, PartialEq, Eq)]
pub struct UserProfilePB {
    pub id: String,
    pub email: String,
    pub name: String,
    pub token: String,
    pub icon_url: String,
    pub openai_key: String,
}

/// A request to change some fields of a profile; a field left `None` is kept.
#[derive(Debug, Default)]
pub struct UpdateUserProfilePayloadPB {
    pub id: String,
    pub name: Option<String>,
    pub email: Option<String>,
    pub password: Option<String>,
    pub icon_url: Option<String>,
    pub openai_key: Option<String>,
}

/// The view of an optional string field.
pub open spec fn opt_view(o: Option<String>) -> Option<Seq<char>> {
    match o {
        Some(s) => Some(s@),
        None => None,
    }
}

impl UpdateUserProfilePayloadPB {
    /// A request for the user `id` that changes nothing yet.
    pub fn new(id: &str) -> (r: UpdateUserProfilePayloadPB)
        ensures
            r.id@ == id@,
            r.name is None,
            r.email is None,
            r.password is None,
            r.icon_url is None,
            r.openai_key is None,
    {
        UpdateUserProfilePayloadPB {
            id: id.to_owned(),
            name: None,
            email: None,
            password: None,
            icon_url: None,
            openai_key: None,
        }
    }

    /// Sets the new name.
    pub fn name(self, name: &str) -> (r: UpdateUserProfilePayloadPB)
        ensures
            opt_view(r.name) == Some(name@),
            r.id@ == self.id@,
            opt_view(r.email) == opt_view(self.email),
            opt_view(r.password) == opt_view(self.password),
            opt_view(r.icon_url) == opt_view(self.icon_url),
            opt_view(r.openai_key) == opt_view(self.openai_key),
    {
        let mut s = self;
        s.name = Some(name.to_owned());
        s
    }

    /// Sets the new email.
    pub fn email(self, email: &str) -> (r: UpdateUserProfilePayloadPB)
        ensures
            opt_view(r.email) == Some(email@),
            r.id@ == self.id@,
            opt_view(r.name) == opt_view(self.name),
            opt_view(r.password) == opt_view(self.password),
            opt_view(r.icon_url) == opt_view(self.icon_url),
            opt_view(r.openai_key) == opt_view(self.openai_key),
    {
        let mut s = self;
        s.email = Some(email.to_owned());
        s
    }

    /// Sets the new password.
    pub fn password(self, password: &str) -> (r: UpdateUserProfilePayloadPB)
        ensures
            opt_view(r.password) == Some(password@),
            r.id@ == self.id@,
            opt_view(r.name) == opt_view(self.name),
            opt_view(r.email) == opt_view(self.email),
            opt_view(r.icon_url) == opt_view(self.icon_url),
            opt_view(r.openai_key) == opt_view(self.openai_key),
    {
        let mut s = self;
        s.password = Some(password.to_owned());
        s
    }

    /// Sets the new icon.
    pub fn icon_url(self, icon_url: &str) -> (r: UpdateUserProfilePayloadPB)
        ensures
            opt_view(r.icon_url) == Some(icon_url@),
            r.id@ == self.id@,
            opt_view(r.name) == opt_view(self.name),
            opt_view(r.email) == opt_view(self.email),
            opt_view(r.password) == opt_view(self.password),
            opt_view(r.openai_key) == opt_view(self.openai_key),
    {
        let mut s = self;
        s.icon_url = Some(icon_url.to_owned());
        s
    }

    /// Sets the new OpenAI key.
    pub fn openai_key(self, openai_key: &str) -> (r: UpdateUserProfilePayloadPB)
        ensures
            opt_view(r.openai_key) == Some(openai_key@),
            r.id@ == self.id@,
            opt_view(r.name) == opt_view(self.name),
            opt_view(r.email) == opt_view(self.email),
            opt_view(r.password) == opt_view(self.password),
            opt_view(r.icon_url) == opt_view(self.icon_url),
    {
        let mut s = self;
        s.openai_key = Some(openai_key.to_owned());
        s
    }
}

/// A freshly signed-up user and the password it was given.
#[derive(Debug)]
pub struct SignUpContext {
    pub user_profile: UserProfilePB,
    pub password: String,
}

/// Whether `c` is one of the URL-safe characters of nanoid's default
/// alphabet.
pub open spec fn is_url_safe(c: char) -> bool {
    c == '_' || c == '-' || ('0' <= c <= '9') || ('a' <= c <= 'z') || ('A' <= c <= 'Z')
}

/// Relies on `nanoid::format` with `nanoid::rngs::default` and the alphabet
/// `nanoid::alphabet::SAFE`: it returns `size` characters, each taken from
/// that alphabet. A size of zero would never return, and a huge one
/// overflows its step computation.
#[verifier::external_body]
fn random_id(size: usize) -> (r: String)
    requires
        0 < size <= 4096,
    ensures
        r@.len() == size,
        forall|i: int| 0 <= i < size ==> is_url_safe(#[trigger] r@[i]),
{
    nanoid::format(nanoid::rngs::default, &nanoid::alphabet::SAFE, size)
}

/// A random address in the appflowy.io domain, with a 20-character local
/// part.
pub fn random_email() -> (r: String)
    ensures
        r@.len() == 20 + "@appflowy.io"@.len(),
        r@.subrange(20, r@.len() as int) == "@appflowy.io"@,
        forall|i: int| 0 <= i < 20 ==> is_url_safe(#[trigger] r@[i]),
{
    let mut s = random_id(20);
    let ghost id = s@;
    s.append("@appflowy.io");
    assert(s@.subrange(20, s@.len() as int) =~= "@appflowy.io"@);
    s
}

/// The address of the fixed test account.
pub fn login_email() -> (r: String)
    ensures
        r@ == "annie2@appflowy.io"@,
{
    String::from_str("annie2@appflowy.io")
}

/// The password of the fixed test account.
pub fn login_password() -> (r: String)
    ensures
        r@ == "HelloWorld!123"@,
{
    String::from_str("HelloWorld!123")
}

} // verus!
