//! Values the HTTP layer exchanges with the library: the signed-in user as
//! read from the identity provider, API errors and the response envelope.
use vstd::prelude::*;
use vstd::string::StringExecFns;

verus! {

/// Relies on http's StatusCode::from_u16 and StatusCode::canonical_reason:
/// the registered reason phrase of a status code, `None` outside `100..=999`.
/// Only the phrases this library uses are stated.
#[verifier::external_body]
fn canonical_reason(code: u16) -> (r: Option<&'static str>)
    ensures
        code == 200 ==> r is Some && r->0@ == "OK"@,
        code == 401 ==> r is Some && r->0@ == "Unauthorized"@,
        code == 500 ==> r is Some && r->0@ == "Internal Server Error"@,
        !(100 <= code <= 999) ==> r is None,
{
    match axum::http::StatusCode::from_u16(code) {
        Ok(status) => status.canonical_reason(),
        Err(_) => None,
    }
}

/// Why a user record from the identity provider is unusable.
#[derive(Debug, Clone, PartialEq, Eq)]
pub enum ClerkError {
    MissingId,
    /// The user with this id has no primary email address.
    MissingEmailAddress(String),
}

impl ClerkError {
    pub open spec fn message_spec(&self) -> Seq<char> {
        match self {
            ClerkError::MissingId => "User is missing required field: `id`"@,
            ClerkError::MissingEmailAddress(id) => "User (ID: "@ + id@
                + ") is missing required field: `email_address`"@,
        }
    }

    /// The error's message.
    pub fn message(&self) -> (r: String)
        ensures
            r@ == self.message_spec(),
    {
        match self {
            ClerkError::MissingId => "User is missing required field: `id`".to_owned(),
            ClerkError::MissingEmailAddress(id) => "User (ID: ".to_owned().concat(id.as_str()).concat(
                ") is missing required field: `email_address`",
            ),
        }
    }
}

/// One email address of a user record.
#[derive(Debug, Clone, PartialEq, Eq)]
pub struct ClerkEmailAddress {
    pub id: Option<String>,
    pub email_address: String,
}

/// The fields of the identity provider's user record that the service reads.
#[derive(Debug, Clone, PartialEq, Eq)]
pub struct ClerkUserRecord {
    pub id: Option<String>,
    pub primary_email_address_id: Option<String>,
    pub email_addresses: Option<Vec<ClerkEmailAddress>>,
    pub has_image: Option<bool>,
    pub image_url: Option<String>,
}

/// The first address whose id is `primary`.
pub open spec fn primary_email(addresses: Seq<ClerkEmailAddress>, primary: Seq<char>) -> Option<String>
    decreases addresses.len(),
{
    if addresses.len() == 0 {
        None
    } else if addresses[0].id matches Some(id) && id@ == primary {
        Some(addresses[0].email_address)
    } else {
        primary_email(addresses.drop_first(), primary)
    }
}

/// A signed-in user: id and primary email are known.
#[derive(Debug, Clone, PartialEq, Eq)]
pub struct ClerkUser {
    id: String,
    email: String,
    has_image: bool,
    image_url: Option<String>,
}

pub struct ClerkUserView {
    pub id: Seq<char>,
    pub email: Seq<char>,
    pub has_image: bool,
    pub image_url: Option<Seq<char>>,
}

impl View for ClerkUser {
    type V = ClerkUserView;

    closed spec fn view(&self) -> ClerkUserView {
        ClerkUserView {
            id: self.id@,
            email: self.email@,
            has_image: self.has_image,
            image_url: match self.image_url {
                Some(u) => Some(u@),
                None => None,
            },
        }
    }
}

/// The first address of `addresses` whose id is `primary`.
fn find_primary_email(addresses: &Vec<ClerkEmailAddress>, primary: &String) -> (r: Option<String>)
    ensures
        r == primary_email(addresses@, primary@),
{
    let ghost all = addresses@;
    let mut i: usize = 0;
    assert(all.subrange(0, all.len() as int) =~= all);
    while i < addresses.len()
        invariant
            all == addresses@,
            i <= all.len(),
            primary_email(all, primary@) == primary_email(all.subrange(i as int, all.len() as int), primary@),
        decreases all.len() - i,
    {
        assert(all.subrange(i as int, all.len() as int).drop_first() =~= all.subrange(i + 1, all.len() as int));
        match &addresses[i].id {
            Some(id) => {
                if *id == *primary {
                    return Some(addresses[i].email_address.clone());
                }
            },
            None => {},
        }
        i = i + 1;
    }
    None
}

impl ClerkUser {
    /// Reads a user record: the id and the primary email address (the
    /// address whose id is `primary_email_address_id`) must be present; a
    /// missing `has_image` reads as `false`.
    pub fn try_from(user: ClerkUserRecord) -> (r: Result<ClerkUser, ClerkError>)
        ensures
            user.id is None ==> r == Err::<ClerkUser, ClerkError>(ClerkError::MissingId),
            user.id matches Some(id) ==> match (user.primary_email_address_id, user.email_addresses) {
                (Some(primary), Some(addresses)) => match primary_email(addresses@, primary@) {
                    Some(email) => r matches Ok(u) && u@ == (ClerkUserView {
                        id: id@,
                        email: email@,
                        has_image: match user.has_image {
                            Some(b) => b,
                            None => false,
                        },
                        image_url: match user.image_url {
                            Some(url) => Some(url@),
                            None => None,
                        },
                    }),
                    None => r == Err::<ClerkUser, ClerkError>(ClerkError::MissingEmailAddress(id)),
                },
                _ => r == Err::<ClerkUser, ClerkError>(ClerkError::MissingEmailAddress(id)),
            },
    {
        let id = match user.id {
            Some(id) => id,
            None => {
                return Err(ClerkError::MissingId);
            },
        };
        let primary = match user.primary_email_address_id {
            Some(primary) => primary,
            None => {
                return Err(ClerkError::MissingEmailAddress(id));
            },
        };
        let addresses = match user.email_addresses {
            Some(addresses) => addresses,
            None => {
                return Err(ClerkError::MissingEmailAddress(id));
            },
        };
        let email = match find_primary_email(&addresses, &primary) {
            Some(email) => email,
            None => {
                return Err(ClerkError::MissingEmailAddress(id));
            },
        };
        let has_image = match user.has_image {
            Some(b) => b,
            None => false,
        };
        Ok(ClerkUser { id, email, has_image, image_url: user.image_url })
    }

    pub fn id(&self) -> (r: &str)
        ensures
            r@ == self@.id,
    {
        self.id.as_str()
    }

    pub fn email(&self) -> (r: &str)
        ensures
            r@ == self@.email,
    {
        self.email.as_str()
    }

    pub fn has_image(&self) -> (r: bool)
        ensures
            r == self@.has_image,
    {
        self.has_image
    }

    pub fn image_url(&self) -> (r: Option<&str>)
        ensures
            r matches Some(u) ==> self@.image_url == Some(u@),
            r is None ==> self@.image_url is None,
    {
        match &self.image_url {
            Some(u) => Some(u.as_str()),
            None => None,
        }
    }
}

/// An error answered by the API.
#[derive(Debug, Clone, PartialEq, Eq)]
pub enum AppError {
    ServerError(String),
    Unauthorized(ClerkError),
}

impl AppError {
    /// The HTTP status the error is answered with.
    pub fn error_code(&self) -> (r: u16)
        ensures
            r == match self {
                AppError::ServerError(_) => 500u16,
                AppError::Unauthorized(_) => 401u16,
            },
    {
        match self {
            AppError::ServerError(_) => 500,
            AppError::Unauthorized(_) => 401,
        }
    }

    /// The error's message.
    pub fn message(&self) -> (r: String)
        ensures
            self matches AppError::ServerError(m) ==> r@ == "Something went wrong: "@ + m@,
            self matches AppError::Unauthorized(e) ==> r@ == e.message_spec(),
    {
        match self {
            AppError::ServerError(m) => "Something went wrong: ".to_owned().concat(m.as_str()),
            AppError::Unauthorized(e) => e.message(),
        }
    }

    /// The reason phrase of the error's status.
    pub fn status_text(&self) -> (r: String)
        ensures
            self is ServerError ==> r@ == "Internal Server Error"@,
            self is Unauthorized ==> r@ == "Unauthorized"@,
    {
        match canonical_reason(self.error_code()) {
            Some(s) => s.to_owned(),
            None => String::new(),
        }
    }
}

/// The envelope of a successful API answer.
#[derive(Debug, Clone, PartialEq, Eq)]
pub struct HttpResponse<B> {
    pub ok: bool,
    pub status: u16,
    pub status_text: String,
    pub body: B,
}

impl<B> HttpResponse<B> {
    /// A `200 OK` answer carrying `body`.
    pub fn from(body: B) -> (r: HttpResponse<B>)
        ensures
            r.ok,
            r.status == 200,
            r.status_text@ == "OK"@,
            r.body == body,
    {
        let status_text = match canonical_reason(200) {
            Some(s) => s.to_owned(),
            None => String::new(),
        };
        HttpResponse { ok: true, status: 200, status_text, body }
    }
}

/// One hit of a food search.
#[derive(Debug, Clone, PartialEq, Eq)]
pub struct FoodSearchResult {
    pub id: String,
    pub name: String,
    pub source: String,
}

} // verus!
