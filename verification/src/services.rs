//! The requests and answers of the board's endpoints, and their own errors.

use crate::api_types::ApiError;
use crate::masked_oid::MaskedObjectId;
use crate::posts::Detail;
use crate::types::{PosterFaculty, PosterYearOfStudy, SessionToken, User, Username};
use vstd::prelude::*;

verus! {

/// The request body for logging in.
#[derive(Clone, Debug)]
pub struct Credentials {
    pub username: Username,
}

/// The request body for registering.
#[derive(Clone, Debug)]
pub struct NewUser {
    pub username: Username,
    /// Year of study of the poster.
    pub year_of_study: Option<PosterYearOfStudy>,
    /// Faculty of the poster.
    pub faculty: Option<PosterFaculty>,
    /// School of the poster.
    pub school_id: String,
}

/// The answer to a login or a registration.
#[derive(Clone, Copy, Debug)]
pub struct NewSession {
    pub token: SessionToken,
}

/// Why a login was refused.
#[derive(Clone, Copy, Debug, PartialEq, Eq, Structural)]
pub enum LoginError {
    UsernameNotFound,
}

/// Why a registration was refused.
#[derive(Clone, Copy, Debug, PartialEq, Eq, Structural)]
pub enum RegistrationError {
    UsernameTaken,
}

/// Why a report was refused.
#[derive(Clone, Copy, Debug, PartialEq, Eq, Structural)]
pub enum ReportError {
    AlreadyReported,
}

/// Why content was not saved.
#[derive(Clone, Copy, Debug, PartialEq, Eq, Structural)]
pub enum SaveError {
    AlreadySaved,
}

/// The kinds of email address a user can link.
#[derive(Clone, Copy, Debug, PartialEq, Eq, Structural)]
pub enum EmailType {
    Personal,
    School,
}

/// The two ways you can filter viewing your saved content.
#[derive(Clone, Copy, Debug, PartialEq, Eq, Structural)]
pub enum Filter {
    Comments,
    Posts,
}

/// The kinds of content that can be saved.
#[derive(Clone, Copy, Debug, PartialEq, Eq, Structural)]
pub enum SavedType {
    Comment,
    Post,
}

/// The request body for saving content.
#[derive(Clone, Copy, Debug)]
pub struct SaveContentRequest {
    pub content_type: SavedType,
    pub content_id: MaskedObjectId,
}

/// The query request for fetching your saved content: what to show, and the
/// date and the identifier after which to go on.
#[derive(Clone, Debug)]
pub struct FetchSavedRequest {
    pub filter: Filter,
    pub after_date: Option<String>,
    pub after_id: Option<MaskedObjectId>,
}

/// A date and time as RFC 3339 text.
#[derive(Clone, Debug)]
pub struct Rfc3339DateTime(pub String);

/// The saved content that was asked for, with the date and the identifier
/// after which the next request goes on.
#[derive(Debug)]
pub struct SavedContentDetail {
    pub after_date: Option<Rfc3339DateTime>,
    pub after_id: Option<MaskedObjectId>,
    pub posts: Vec<Detail>,
    pub comments: Vec<Detail>,
}

/// The request body for linking an email address.
#[derive(Clone, Debug)]
pub struct VerificationRequest {
    pub email: String,
    pub email_type: EmailType,
}

/// What a user can change of a profile.
#[derive(Clone, Debug)]
pub struct UpdatableProfileData {
    /// Year of study of the poster.
    pub year_of_study: Option<PosterYearOfStudy>,
    /// Faculty of the poster.
    pub faculty: Option<PosterFaculty>,
    /// School of the poster.
    pub school_id: Option<String>,
}

/// The profile of a user.
#[derive(Clone, Debug)]
pub struct ProfileData {
    /// Year of study of the poster.
    pub year_of_study: Option<PosterYearOfStudy>,
    /// Faculty of the poster.
    pub faculty: Option<PosterFaculty>,
    /// School of the poster.
    pub school_id: String,
    /// Username of the user.
    pub username: String,
}

impl ProfileData {
    /// The profile of a user, as it is shown to the user.
    pub fn from_user(user: User) -> (profile: ProfileData)
        ensures
            profile.year_of_study == user.year_of_study,
            profile.faculty == user.faculty,
            profile.school_id@ == user.school_id@,
            profile.username@ == user.username@,
    {
        ProfileData {
            year_of_study: user.year_of_study,
            faculty: user.faculty,
            school_id: user.school_id,
            username: user.username.into_string(),
        }
    }
}

/// A school that a user watches.
#[derive(Clone, Debug)]
pub struct SchoolDetail {
    pub school_id: String,
    pub full_name: String,
}

/// The category of a report, by its name.
#[derive(Clone, Debug)]
pub struct ReportCategory(pub String);

/// The request body for reporting a post.
#[derive(Clone, Debug)]
pub struct ReportRequest {
    pub reason: String,
    pub category: ReportCategory,
}

/// One report of a post.
#[derive(Clone, Debug)]
pub struct ReportDetailItem {
    pub reason: String,
    pub category: ReportCategory,
}

/// A page of the reports of a post, and where the next page starts.
#[derive(Clone, Debug)]
pub struct ReportDetail {
    pub reports: Vec<ReportDetailItem>,
    pub next: Option<i32>,
}

/// The request body for listing reported posts.
#[derive(Clone, Debug)]
pub struct ListReportsRequest {
    pub seen: Vec<MaskedObjectId>,
    pub min_reports: u32,
    pub show_removed: bool,
}

/// A reported post.
#[derive(Debug)]
pub struct ReportedPostDetail {
    pub post: Detail,
    pub reports: i32,
    pub removed: bool,
}

impl ApiError for LoginError {
    open spec fn spec_status_code(&self) -> u16 {
        400
    }

    fn status_code(&self) -> (code: u16) {
        match self {
            LoginError::UsernameNotFound => 400,
        }
    }
}

impl ApiError for RegistrationError {
    open spec fn spec_status_code(&self) -> u16 {
        409
    }

    fn status_code(&self) -> (code: u16) {
        match self {
            RegistrationError::UsernameTaken => 409,
        }
    }
}

impl ApiError for ReportError {
    open spec fn spec_status_code(&self) -> u16 {
        409
    }

    fn status_code(&self) -> (code: u16) {
        match self {
            ReportError::AlreadyReported => 409,
        }
    }
}

impl ApiError for SaveError {
    open spec fn spec_status_code(&self) -> u16 {
        409
    }

    fn status_code(&self) -> (code: u16) {
        match self {
            SaveError::AlreadySaved => 409,
        }
    }
}

} // verus!
