//! What a client of the hosting service is told, and what it decides: how
//! an answer of the service is read, when an upload is tried again under
//! another name, how long to wait for an asset to resolve, and which
//! credentials select which client.

use vstd::prelude::*;
use reqwest::StatusCode;
use crate::text::{contains, contains_text, decimal, decimal_string, decimal_value, is_digits,
    push_decimal, spec_strip_prefix, strip_text_prefix};

verus! {

/// An image to upload.
#[derive(Debug, Clone)]
pub struct ImageUploadData {
    pub image_data: Vec<u8>,
    pub name: String,
    pub description: String,
    pub group_id: Option<u64>,
    pub user_id: Option<u64>,
}

/// An image to upload, as a mathematical value.
pub struct ImageUploadView {
    pub image_data: Seq<u8>,
    pub name: Seq<char>,
    pub description: Seq<char>,
    pub group_id: Option<u64>,
    pub user_id: Option<u64>,
}

impl View for ImageUploadData {
    type V = ImageUploadView;

    open spec fn view(&self) -> ImageUploadView {
        ImageUploadView {
            image_data: self.image_data@,
            name: self.name@,
            description: self.description@,
            group_id: self.group_id,
            user_id: self.user_id,
        }
    }
}

/// What the upload endpoint answers, before any error in it is handled.
#[derive(Debug, Clone)]
pub struct RawUploadResponse {
    pub success: bool,
    pub message: Option<String>,
    pub asset_id: Option<u64>,
    pub backing_asset_id: Option<u64>,
}

/// A successful upload.
#[derive(Debug, Clone, Copy, PartialEq, Eq, Structural)]
pub struct UploadResponse {
    pub asset_id: u64,
    pub backing_asset_id: u64,
}

/// What can go wrong between a client and the hosting service.
#[derive(Debug, Clone)]
pub enum RobloxApiError {
    /// The request did not get through.
    Http { message: String },
    /// The cloud client failed otherwise than with an HTTP status.
    RbxCloud { message: String },
    /// The service accepted the request and refused what it asked for.
    ApiError { message: String },
    /// The service reported success with a body that is no valid answer.
    BadResponseJson { body: String, reason: String },
    /// The service answered with an HTTP status that is no success.
    ResponseError { status: u16, body: String },
    /// A successful answer lacks a field that a success carries.
    MissingResponseField,
    /// The request for a CSRF token came back without one.
    MissingCsrfToken,
    /// The asset was accepted but did not resolve in time.
    AssetGetFailed,
    /// An API key was given without a group or a user to upload to.
    ApiKeyNeedsCreatorId,
    /// Neither an API key nor a token is at hand.
    MissingAuth,
    /// Both a group and a user were named.
    AmbiguousCreatorType,
    /// The answer to an upload names no operation.
    MissingOperationPath,
    /// The operation that an upload names is not written as one.
    MalformedOperationPath,
    /// The asset identifier in an answer is no number.
    MalformedAssetId { text: String },
}

/// The status that stands for `code`: `code` itself where it is a status
/// code, which is from 100 to 999, and 200 otherwise.
pub open spec fn status_or_default(code: u16) -> u16 {
    if 100 <= code <= 999 {
        code
    } else {
        200
    }
}

/// `reqwest::StatusCode::from_u16`: the code is accepted where it is from
/// 100 to 999, and the status then holds that code.
#[verifier::external_body]
fn status_from_u16(code: u16) -> (status: Option<u16>)
    ensures
        status == if 100 <= code <= 999 {
            Some(code)
        } else {
            None
        },
{
    match StatusCode::from_u16(code) {
        Ok(status) => Some(status.as_u16()),
        Err(_) => None,
    }
}

/// `reqwest::StatusCode::default`: the status 200.
#[verifier::external_body]
fn default_status() -> (status: u16)
    ensures
        status == 200,
{
    StatusCode::default().as_u16()
}

/// Whether `status` reports a success: it is from 200 to 299.
pub fn is_success(status: u16) -> (success: bool)
    ensures
        success == (200 <= status < 300),
{
    200 <= status && status < 300
}

impl RobloxApiError {
    /// The error for an HTTP status that the cloud client reports: a
    /// response error with that status, or with 200 where the code is no
    /// status code.
    pub fn from_cloud_status(code: u16, msg: String) -> (error: RobloxApiError)
        ensures
            error == (RobloxApiError::ResponseError { status: status_or_default(code), body: msg }),
    {
        let status = match status_from_u16(code) {
            Some(status) => status,
            None => default_status(),
        };
        RobloxApiError::ResponseError { status, body: msg }
    }

    /// The service refused the upload for the name it was given: an API
    /// error that speaks of something inappropriate, or the status 400 with
    /// a body that speaks of moderation.
    pub open spec fn is_moderation(self) -> bool {
        match self {
            RobloxApiError::ApiError { message } => contains_text(message@, "inappropriate"@),
            RobloxApiError::ResponseError { status, body } => status == 400 && contains_text(
                body@,
                "moderated"@,
            ),
            _ => false,
        }
    }

    /// The service turned the request away for the time being: status 429.
    pub open spec fn is_rate_limit(self) -> bool {
        self matches RobloxApiError::ResponseError { status, .. } && status == 429
    }

    /// Whether the service refused the upload for the name it was given.
    pub fn is_moderation_rejection(&self) -> (moderated: bool)
        ensures
            moderated == self.is_moderation(),
    {
        match self {
            RobloxApiError::ApiError { message } => contains(message.as_str(), "inappropriate"),
            RobloxApiError::ResponseError { status, body } => *status == 400 && contains(
                body.as_str(),
                "moderated",
            ),
            _ => false,
        }
    }

    /// Whether the service turned the request away for the time being.
    pub fn is_rate_limited(&self) -> (limited: bool)
        ensures
            limited == self.is_rate_limit(),
    {
        match self {
            RobloxApiError::ResponseError { status, .. } => *status == 429,
            _ => false,
        }
    }
}

/// How an answer of the upload endpoint reads: a success carries both
/// identifiers, a refusal its message.
pub open spec fn spec_interpret_upload(raw: RawUploadResponse) -> Result<
    UploadResponse,
    RobloxApiError,
> {
    if raw.success {
        match (raw.asset_id, raw.backing_asset_id) {
            (Some(asset_id), Some(backing_asset_id)) => Ok(
                UploadResponse { asset_id, backing_asset_id },
            ),
            _ => Err(RobloxApiError::MissingResponseField),
        }
    } else {
        match raw.message {
            Some(message) => Err(RobloxApiError::ApiError { message }),
            None => Err(RobloxApiError::MissingResponseField),
        }
    }
}

/// Reads an answer of the upload endpoint that came with a success status.
pub fn interpret_upload(raw: RawUploadResponse) -> (result: Result<UploadResponse, RobloxApiError>)
    ensures
        result == spec_interpret_upload(raw),
{
    if raw.success {
        match (raw.asset_id, raw.backing_asset_id) {
            (Some(asset_id), Some(backing_asset_id)) => Ok(
                UploadResponse { asset_id, backing_asset_id },
            ),
            _ => Err(RobloxApiError::MissingResponseField),
        }
    } else {
        match raw.message {
            Some(message) => Err(RobloxApiError::ApiError { message }),
            None => Err(RobloxApiError::MissingResponseField),
        }
    }
}

/// The name under which an upload is tried again after its own name was
/// refused.
pub open spec fn fallback_name() -> Seq<char> {
    "image"@
}

/// `data` under the fallback name.
pub open spec fn renamed(data: ImageUploadView) -> ImageUploadView {
    ImageUploadView { name: fallback_name(), ..data }
}

/// A client of the hosting service.
pub trait Api: Sized {
    /// What one call of `upload_image` may do: from the client `self` and
    /// the image `data` to the answer `result` and the client `after`. A
    /// client that says nothing may do anything.
    open spec fn upload_spec(
        &self,
        data: ImageUploadView,
        result: Result<UploadResponse, RobloxApiError>,
        after: &Self,
    ) -> bool {
        true
    }

    /// The bytes of the image with the identifier `id`.
    fn download_image(&mut self, id: u64) -> Result<Vec<u8>, RobloxApiError>;

    /// Uploads an image; anything that goes wrong is an error.
    fn upload_image(&mut self, data: ImageUploadData) -> (result: Result<
        UploadResponse,
        RobloxApiError,
    >)
        ensures
            old(self).upload_spec(data@, result, final(self)),
    ;
}

/// An upload with its one-shot fallback, given the first answer `first`
/// and the client `between` that the first call left.
pub open spec fn moderated_step<C: Api>(
    before: C,
    data: ImageUploadView,
    result: Result<UploadResponse, RobloxApiError>,
    after: C,
    first: Result<UploadResponse, RobloxApiError>,
    between: C,
) -> bool {
    &&& before.upload_spec(data, first, &between)
    &&& if first is Err && first->Err_0.is_moderation() {
        between.upload_spec(renamed(data), result, &after)
    } else {
        result == first && after == between
    }
}

/// An upload with its one-shot fallback: one call, and where its answer is
/// a moderation rejection, one more call under the fallback name, whose
/// answer stands.
pub open spec fn moderated_upload<C: Api>(
    before: C,
    data: ImageUploadView,
    result: Result<UploadResponse, RobloxApiError>,
    after: C,
) -> bool {
    exists|first: Result<UploadResponse, RobloxApiError>, between: C|
        moderated_step(before, data, result, after, first, between)
}

/// Uploads an image, and once more under the name `image` where the service
/// refuses the image's own name. The fallback is tried once; its answer
/// stands, whatever it is.
pub fn upload_image_with_moderation_retry<C: Api>(client: &mut C, data: ImageUploadData) -> (result:
    Result<UploadResponse, RobloxApiError>)
    ensures
        moderated_upload(*old(client), data@, result, *final(client)),
{
    let again = ImageUploadData {
        image_data: data.image_data.clone(),
        name: String::from_str("image"),
        description: data.description.clone(),
        group_id: data.group_id,
        user_id: data.user_id,
    };
    assert(again@ == renamed(data@));
    let first = client.upload_image(data);
    let ghost between = *client;
    let moderated = match &first {
        Ok(_) => false,
        Err(error) => error.is_moderation_rejection(),
    };
    if moderated {
        let second = client.upload_image(again);
        assert(moderated_step(*old(client), data@, second, *client, first, between));
        second
    } else {
        assert(moderated_step(*old(client), data@, first, *client, first, between));
        first
    }
}

/// Which credentials are at hand. The secrets themselves stay with the
/// caller: no decision here reads them.
#[derive(Debug, Clone, Copy, PartialEq, Eq, Structural)]
pub struct RobloxCredentials {
    /// An authentication cookie is at hand.
    pub has_token: bool,
    /// An API key is at hand.
    pub has_api_key: bool,
    /// The user to upload to, if one was named.
    pub user_id: Option<u64>,
    /// The group to upload to, if one was named.
    pub group_id: Option<u64>,
}

/// Who will own an uploaded asset.
#[derive(Debug, Clone, Copy, PartialEq, Eq, Structural)]
pub enum CreatorId {
    User(u64),
    Group(u64),
}

/// Who will own an uploaded asset, as the cloud API is told: the number in
/// decimal.
#[derive(Debug, Clone, PartialEq, Eq)]
pub enum AssetCreator {
    User { user_id: String },
    Group { group_id: String },
}

impl AssetCreator {
    /// The creator as the cloud API is told.
    pub fn from_id(id: CreatorId) -> (creator: AssetCreator)
        ensures
            match id {
                CreatorId::User(user) => creator matches AssetCreator::User { user_id }
                    && user_id@ == decimal(user as nat),
                CreatorId::Group(group) => creator matches AssetCreator::Group { group_id }
                    && group_id@ == decimal(group as nat),
            },
    {
        match id {
            CreatorId::User(user) => AssetCreator::User { user_id: decimal_string(user) },
            CreatorId::Group(group) => AssetCreator::Group { group_id: decimal_string(group) },
        }
    }
}

/// The client that a set of credentials selects.
#[derive(Debug, Clone, Copy, PartialEq, Eq, Structural)]
pub enum ClientKind {
    /// The cloud API, with an API key, uploading to `creator`.
    OpenCloud { creator: CreatorId },
    /// The web API, with a cookie. `ignores_user_id` says that a user was
    /// named, which this client cannot use: uploads go to whoever the
    /// cookie belongs to.
    Legacy { ignores_user_id: bool },
}

/// The creator that the cloud API needs: the group or the user, one of
/// the two.
pub open spec fn spec_cloud_creator(credentials: RobloxCredentials) -> Result<
    CreatorId,
    RobloxApiError,
> {
    match (credentials.group_id, credentials.user_id) {
        (Some(id), None) => Ok(CreatorId::Group(id)),
        (None, Some(id)) => Ok(CreatorId::User(id)),
        (None, None) => Err(RobloxApiError::ApiKeyNeedsCreatorId),
        (Some(_), Some(_)) => Err(RobloxApiError::AmbiguousCreatorType),
    }
}

/// The creator that the cloud API needs.
pub fn cloud_creator(credentials: &RobloxCredentials) -> (creator: Result<
    CreatorId,
    RobloxApiError,
>)
    ensures
        creator == spec_cloud_creator(*credentials),
{
    match (credentials.group_id, credentials.user_id) {
        (Some(id), None) => Ok(CreatorId::Group(id)),
        (None, Some(id)) => Ok(CreatorId::User(id)),
        (None, None) => Err(RobloxApiError::ApiKeyNeedsCreatorId),
        (Some(_), Some(_)) => Err(RobloxApiError::AmbiguousCreatorType),
    }
}

/// The client that `credentials` select. Without a key and without a
/// cookie there is none; a group and a user together are ambiguous; a key
/// selects the cloud API, which needs a creator; a cookie alone selects the
/// web API.
pub open spec fn spec_preferred_client(credentials: RobloxCredentials) -> Result<
    ClientKind,
    RobloxApiError,
> {
    if !credentials.has_token && !credentials.has_api_key {
        Err(RobloxApiError::MissingAuth)
    } else if credentials.group_id is Some && credentials.user_id is Some {
        Err(RobloxApiError::AmbiguousCreatorType)
    } else if credentials.has_api_key {
        match spec_cloud_creator(credentials) {
            Ok(creator) => Ok(ClientKind::OpenCloud { creator }),
            Err(error) => Err(error),
        }
    } else {
        Ok(ClientKind::Legacy { ignores_user_id: credentials.user_id is Some })
    }
}

/// The client that `credentials` select.
pub fn get_preferred_client(credentials: RobloxCredentials) -> (client: Result<
    ClientKind,
    RobloxApiError,
>)
    ensures
        client == spec_preferred_client(credentials),
{
    if !credentials.has_token && !credentials.has_api_key {
        Err(RobloxApiError::MissingAuth)
    } else if credentials.group_id.is_some() && credentials.user_id.is_some() {
        Err(RobloxApiError::AmbiguousCreatorType)
    } else if credentials.has_api_key {
        match cloud_creator(&credentials) {
            Ok(creator) => Ok(ClientKind::OpenCloud { creator }),
            Err(error) => Err(error),
        }
    } else {
        Ok(ClientKind::Legacy { ignores_user_id: credentials.user_id.is_some() })
    }
}

/// What a client that speaks both APIs knows of the creator.
#[derive(Debug, Clone, Copy, PartialEq, Eq, Structural)]
pub struct ResolvedCreator {
    /// The creator, where a group or a user was named.
    pub creator: Option<CreatorId>,
    /// A user was named without an API key: the web API cannot use it.
    pub ignores_user_id: bool,
}

/// The creator of a client that speaks both APIs. It needs a key or a
/// cookie; with a key it needs a group or a user; it never takes both.
pub open spec fn spec_resolve_creator(credentials: RobloxCredentials) -> Result<
    ResolvedCreator,
    RobloxApiError,
> {
    if !credentials.has_api_key && !credentials.has_token {
        Err(RobloxApiError::MissingAuth)
    } else {
        match (credentials.group_id, credentials.user_id) {
            (Some(id), None) => Ok(
                ResolvedCreator { creator: Some(CreatorId::Group(id)), ignores_user_id: false },
            ),
            (None, Some(id)) => Ok(
                ResolvedCreator {
                    creator: Some(CreatorId::User(id)),
                    ignores_user_id: !credentials.has_api_key,
                },
            ),
            (None, None) => if credentials.has_api_key {
                Err(RobloxApiError::ApiKeyNeedsCreatorId)
            } else {
                Ok(ResolvedCreator { creator: None, ignores_user_id: false })
            },
            (Some(_), Some(_)) => Err(RobloxApiError::AmbiguousCreatorType),
        }
    }
}

/// The creator of a client that speaks both APIs.
pub fn resolve_creator(credentials: &RobloxCredentials) -> (resolved: Result<
    ResolvedCreator,
    RobloxApiError,
>)
    ensures
        resolved == spec_resolve_creator(*credentials),
{
    if !credentials.has_api_key && !credentials.has_token {
        return Err(RobloxApiError::MissingAuth);
    }
    match (credentials.group_id, credentials.user_id) {
        (Some(id), None) => Ok(
            ResolvedCreator { creator: Some(CreatorId::Group(id)), ignores_user_id: false },
        ),
        (None, Some(id)) => Ok(
            ResolvedCreator {
                creator: Some(CreatorId::User(id)),
                ignores_user_id: !credentials.has_api_key,
            },
        ),
        (None, None) => if credentials.has_api_key {
            Err(RobloxApiError::ApiKeyNeedsCreatorId)
        } else {
            Ok(ResolvedCreator { creator: None, ignores_user_id: false })
        },
        (Some(_), Some(_)) => Err(RobloxApiError::AmbiguousCreatorType),
    }
}

/// Where a credential comes from, in the order of precedence.
#[derive(Debug, Clone, Copy, PartialEq, Eq, Structural)]
pub enum CredentialSource {
    /// It was given on the command line.
    Flag,
    /// It was found in the environment.
    Environment,
    /// It was taken from the local installation.
    Studio,
}

/// The credentials that were found, by where they were found.
#[derive(Debug, Clone, Copy, PartialEq, Eq, Structural)]
pub struct CredentialsFound {
    /// An API key was given on the command line.
    pub api_key_flag: bool,
    /// An API key is set in the environment.
    pub api_key_environment: bool,
    /// A cookie was given on the command line.
    pub cookie_flag: bool,
    /// The local installation holds a cookie.
    pub cookie_studio: bool,
}

/// The client to make, and the credential to make it with.
#[derive(Debug, Clone, Copy, PartialEq, Eq, Structural)]
pub enum Clients {
    /// The cloud API, with the key from `api_key`.
    OpenCloud { api_key: CredentialSource },
    /// The web API, with the cookie from `cookie` where there is one.
    RobloxApi { cookie: Option<CredentialSource> },
}

/// The client to make. An API key selects the cloud API, a key on the
/// command line before one in the environment. Failing a key the web API
/// is selected, with the cookie from the command line before the one of
/// the local installation.
pub open spec fn spec_get_client(found: CredentialsFound) -> Clients {
    if found.api_key_flag {
        Clients::OpenCloud { api_key: CredentialSource::Flag }
    } else if found.api_key_environment {
        Clients::OpenCloud { api_key: CredentialSource::Environment }
    } else if found.cookie_flag {
        Clients::RobloxApi { cookie: Some(CredentialSource::Flag) }
    } else if found.cookie_studio {
        Clients::RobloxApi { cookie: Some(CredentialSource::Studio) }
    } else {
        Clients::RobloxApi { cookie: None }
    }
}

/// The client to make.
pub fn get_client(found: CredentialsFound) -> (client: Clients)
    ensures
        client == spec_get_client(found),
{
    if found.api_key_flag {
        Clients::OpenCloud { api_key: CredentialSource::Flag }
    } else if found.api_key_environment {
        Clients::OpenCloud { api_key: CredentialSource::Environment }
    } else if found.cookie_flag {
        Clients::RobloxApi { cookie: Some(CredentialSource::Flag) }
    } else if found.cookie_studio {
        Clients::RobloxApi { cookie: Some(CredentialSource::Studio) }
    } else {
        Clients::RobloxApi { cookie: None }
    }
}

/// The user to upload to: the one named on the command line, and failing
/// that the one named in the environment.
pub fn user_id_or_environment(flag: Option<u64>, environment: Option<u64>) -> (user_id: Option<u64>)
    ensures
        user_id == if flag is Some {
            flag
        } else {
            environment
        },
{
    match flag {
        Some(id) => Some(id),
        None => environment,
    }
}

/// The API that an upload goes through.
#[derive(Debug, Clone, Copy, PartialEq, Eq, Structural)]
pub enum UploadRoute {
    OpenCloud { creator: CreatorId },
    Legacy,
}

/// The API that an upload goes through: the cloud API where a key is at
/// hand, which then needs a creator, and the web API otherwise.
pub fn upload_route(has_api_key: bool, creator: Option<CreatorId>) -> (route: Result<
    UploadRoute,
    RobloxApiError,
>)
    ensures
        route == if !has_api_key {
            Ok::<UploadRoute, RobloxApiError>(UploadRoute::Legacy)
        } else {
            match creator {
                Some(creator) => Ok(UploadRoute::OpenCloud { creator }),
                None => Err(RobloxApiError::ApiKeyNeedsCreatorId),
            }
        },
{
    if !has_api_key {
        Ok(UploadRoute::Legacy)
    } else {
        match creator {
            Some(creator) => Ok(UploadRoute::OpenCloud { creator }),
            None => Err(RobloxApiError::ApiKeyNeedsCreatorId),
        }
    }
}

/// The address of the assets endpoint, or of one asset below it.
pub open spec fn spec_build_url(asset_id: Option<u64>) -> Seq<char> {
    match asset_id {
        Some(id) => "https://apis.roblox.com/assets/v1/assets"@ + "/"@ + decimal(id as nat),
        None => "https://apis.roblox.com/assets/v1/assets"@,
    }
}

/// The address of the assets endpoint, or of one asset below it.
pub fn build_url(asset_id: Option<u64>) -> (url: String)
    ensures
        url@ == spec_build_url(asset_id),
{
    let mut url = String::from_str("https://apis.roblox.com/assets/v1/assets");
    match asset_id {
        Some(id) => {
            url.append("/");
            push_decimal(&mut url, id);
        },
        None => {},
    }
    url
}

/// The address at which the operation `operation_path` is asked after.
pub fn operation_url(operation_path: &str) -> (url: String)
    ensures
        url@ == "https://apis.roblox.com/assets/v1/"@ + operation_path@,
{
    let mut url = String::from_str("https://apis.roblox.com/assets/v1/");
    url.append(operation_path);
    url
}

/// The address of the web upload endpoint, for the group where one is named.
pub fn legacy_upload_url(group_id: Option<u64>) -> (url: String)
    ensures
        url@ == match group_id {
            Some(id) => "https://data.roblox.com/data/upload/json?assetTypeId=13"@ + "&groupId="@
                + decimal(id as nat),
            None => "https://data.roblox.com/data/upload/json?assetTypeId=13"@,
        },
{
    let mut url = String::from_str("https://data.roblox.com/data/upload/json?assetTypeId=13");
    match group_id {
        Some(id) => {
            url.append("&groupId=");
            push_decimal(&mut url, id);
        },
        None => {},
    }
    url
}

/// The operation that the answer to an upload names: the path behind
/// `operations/`.
pub fn operation_id(path: Option<String>) -> (id: Result<String, RobloxApiError>)
    ensures
        match path {
            None => id matches Err(RobloxApiError::MissingOperationPath),
            Some(path) => match spec_strip_prefix(path@, "operations/"@) {
                Some(rest) => id matches Ok(text) && text@ == rest,
                None => id matches Err(RobloxApiError::MalformedOperationPath),
            },
        },
{
    match path {
        None => Err(RobloxApiError::MissingOperationPath),
        Some(path) => match strip_text_prefix(path.as_str(), "operations/") {
            Some(rest) => Ok(rest),
            None => Err(RobloxApiError::MalformedOperationPath),
        },
    }
}

/// The number that `text` spells: an optional `+`, then one decimal digit
/// or more, whose number fits 64 bits. Any other text spells none.
pub open spec fn parsed_u64(text: Seq<char>) -> Option<u64> {
    let digits = if text.len() > 0 && text[0] == '+' {
        text.drop_first()
    } else {
        text
    };
    if is_digits(digits) && decimal_value(digits) <= u64::MAX {
        Some(decimal_value(digits) as u64)
    } else {
        None
    }
}

/// `str::parse::<u64>`: the number that the text spells in decimal. The
/// text may begin with a `+`; apart from that it holds digits only, at
/// least one; and the number fits 64 bits. Every other text, the empty one
/// and one with blanks or a `-` among them, is refused.
#[verifier::external_body]
fn parse_u64(text: &str) -> (number: Option<u64>)
    ensures
        number == parsed_u64(text@),
{
    match text.parse::<u64>() {
        Ok(number) => Some(number),
        Err(_) => None,
    }
}

/// The address from which the image with the identifier `id` is
/// downloaded.
pub fn download_url(id: u64) -> (url: String)
    ensures
        url@ == "https://roblox.com/asset?id="@ + decimal(id as nat),
{
    let mut url = String::from_str("https://roblox.com/asset?id=");
    push_decimal(&mut url, id);
    url
}

/// How often an operation is asked after again before it is given up.
pub const MAX_RETRIES: u32 = 5;

/// The pause before the second poll, in milliseconds.
pub const INITIAL_SLEEP_MILLIS: u64 = 50;

/// What to do after a poll.
#[derive(Debug, Clone)]
pub enum PollStep {
    /// The asset resolved to this identifier.
    Done { asset_id: u64 },
    /// The poll ends here with an error.
    Failed { error: RobloxApiError },
    /// Sleep for `sleep_millis` and poll again; `retry_count` polls have
    /// then been repeated.
    Wait { retry_count: u32, sleep_millis: u64 },
}

/// The pause before the poll that repeats for the `attempt`-th time: the
/// initial pause times the square of `attempt`.
pub open spec fn backoff_millis(attempt: nat) -> nat {
    INITIAL_SLEEP_MILLIS as nat * attempt * attempt
}

/// The step after a poll that followed `retry_count` repetitions. The
/// operation has resolved where the answer holds an identifier,
/// `asset_text`, which reads as the number `asset_id` or as none. Where it
/// has not resolved, the poll is repeated after a pause that grows with the
/// square of the count, and given up once the count is over the bound.
pub open spec fn spec_poll_step(
    retry_count: u32,
    asset_text: Option<String>,
    asset_id: Option<u64>,
) -> PollStep {
    match asset_text {
        Some(text) => match asset_id {
            Some(id) => PollStep::Done { asset_id: id },
            None => PollStep::Failed { error: RobloxApiError::MalformedAssetId { text } },
        },
        None => if retry_count > MAX_RETRIES {
            PollStep::Failed { error: RobloxApiError::AssetGetFailed }
        } else {
            PollStep::Wait {
                retry_count: (retry_count + 1) as u32,
                sleep_millis: backoff_millis((retry_count + 1) as nat) as u64,
            }
        },
    }
}

/// The number read in the identifier of an answer, if the answer holds an
/// identifier and it is a number.
pub open spec fn parsed_asset_id(asset_text: Option<String>) -> Option<u64> {
    match asset_text {
        Some(text) => parsed_u64(text@),
        None => None,
    }
}

/// The step after a poll that followed `retry_count` repetitions, given the
/// identifier in the answer as text and as the number read in it.
pub fn poll_decision(retry_count: u32, asset_text: Option<String>, asset_id: Option<u64>) -> (step:
    PollStep)
    ensures
        step == spec_poll_step(retry_count, asset_text, asset_id),
{
    match asset_text {
        Some(text) => match asset_id {
            Some(id) => PollStep::Done { asset_id: id },
            None => PollStep::Failed { error: RobloxApiError::MalformedAssetId { text } },
        },
        None => if retry_count > MAX_RETRIES {
            PollStep::Failed { error: RobloxApiError::AssetGetFailed }
        } else {
            let attempt: u64 = retry_count as u64 + 1;
            assert(attempt * attempt <= 36) by (nonlinear_arith)
                requires
                    1 <= attempt <= 6,
            ;
            assert(INITIAL_SLEEP_MILLIS as nat * (attempt as nat) * (attempt as nat)
                == INITIAL_SLEEP_MILLIS * (attempt * attempt)) by (nonlinear_arith);
            PollStep::Wait {
                retry_count: retry_count + 1,
                sleep_millis: INITIAL_SLEEP_MILLIS * (attempt * attempt),
            }
        },
    }
}

/// The step after a poll that followed `retry_count` repetitions and whose
/// answer holds the identifier `asset_text`, if the operation has resolved.
pub fn poll_step(retry_count: u32, asset_text: Option<String>) -> (step: PollStep)
    ensures
        step == spec_poll_step(retry_count, asset_text, parsed_asset_id(asset_text)),
{
    let asset_id = match &asset_text {
        Some(text) => parse_u64(text.as_str()),
        None => None,
    };
    poll_decision(retry_count, asset_text, asset_id)
}

/// What to do with an answer as far as the CSRF token goes.
#[derive(Debug, Clone, PartialEq, Eq)]
pub enum CsrfStep {
    /// The answer stands.
    Accept,
    /// Send the request once more, with this token.
    RetryWith { token: String },
}

/// An answer with the status 403 that brings a token asks for the request
/// to be sent again with that token; any other answer stands.
pub fn csrf_step(status: u16, token: Option<String>) -> (step: CsrfStep)
    ensures
        step == match token {
            Some(token) if status == 403 => CsrfStep::RetryWith { token },
            _ => CsrfStep::Accept,
        },
{
    match token {
        Some(token) => if status == 403 {
            CsrfStep::RetryWith { token }
        } else {
            CsrfStep::Accept
        },
        None => CsrfStep::Accept,
    }
}

/// How an answer of the web upload endpoint reads, given its status, its
/// body, and the body parsed, or the reason why it does not parse.
pub fn read_upload_answer(
    status: u16,
    body: String,
    parsed: Result<RawUploadResponse, String>,
) -> (raw: Result<RawUploadResponse, RobloxApiError>)
    ensures
        raw == if !(200 <= status < 300) {
            Err::<RawUploadResponse, RobloxApiError>(
                RobloxApiError::ResponseError { status, body },
            )
        } else {
            match parsed {
                Ok(response) => Ok(response),
                Err(reason) => Err(RobloxApiError::BadResponseJson { body, reason }),
            }
        },
{
    if is_success(status) {
        match parsed {
            Ok(response) => Ok(response),
            Err(reason) => Err(RobloxApiError::BadResponseJson { body, reason }),
        }
    } else {
        Err(RobloxApiError::ResponseError { status, body })
    }
}

} // verus!
