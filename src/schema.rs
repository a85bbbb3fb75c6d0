use vstd::prelude::*;

verus! {

/// The body of a user sign-up request.
pub struct CreateUserRequestBody {
    pub username: String,
    pub password: String,
}

/// The answer to a sign-up: a bearer token for the new user.
pub struct CreateUserResponseBody {
    pub token: String,
}

/// The body of a bearer-token login request.
pub struct LoginUserRequestBody {
    pub username: String,
    pub password: String,
}

/// The answer to a login: a bearer token.
pub struct LoginUserResponseBody {
    pub token: String,
}

/// The answer to "who am I".
pub struct WhoamiResponseBody {
    pub username: String,
}

/// The body of a session login form.
pub struct LoginRequestBody {
    pub username: String,
    pub password: String,
}

/// A newsletter issue to send to every confirmed subscriber.
pub struct PublishNewsletterRequestBody {
    pub title: String,
    pub content: NewsletterContent,
}

/// The two renderings of a newsletter issue.
pub struct NewsletterContent {
    pub html: String,
    pub text: String,
}

/// The subscription form.
pub struct SubscribeBody {
    pub email: String,
    pub name: String,
}

/// The query of a subscription confirmation link.
pub struct ConfirmParams {
    pub subscription_token: String,
}

/// A user to create.
pub struct NewUser {
    pub username: String,
    pub password: String,
}

/// A user logging in.
pub struct LoginUser {
    pub username: String,
    pub password: String,
}

/// A signed-in user and their token.
pub struct User {
    pub token: String,
    pub username: String,
}

} // verus!
