use tarmac::data::AssetId;
use tarmac::roblox_api::{
    build_url, cloud_creator, csrf_step, download_url, get_preferred_client, interpret_upload,
    is_success,
    legacy_upload_url, operation_id, operation_url, poll_decision, poll_step, read_upload_answer,
    resolve_creator, upload_image_with_moderation_retry, upload_route, Api, AssetCreator,
    ClientKind, CreatorId, CsrfStep, ImageUploadData, PollStep, RawUploadResponse,
    ResolvedCreator, RobloxApiError, RobloxCredentials, UploadResponse, UploadRoute,
    INITIAL_SLEEP_MILLIS, MAX_RETRIES,
};
use tarmac::roblox_cloud_api::RbxCloudApi;
use tarmac::sync_backend::{
    remote_result, Error, RobloxSyncBackend, SyncBackend, UploadInfo,
    UploadResponse as BackendResponse,
};

struct Scripted {
    names: Vec<String>,
    answers: Vec<Result<UploadResponse, RobloxApiError>>,
}

impl Api for Scripted {
    fn download_image(&mut self, _id: u64) -> Result<Vec<u8>, RobloxApiError> {
        Ok(Vec::new())
    }

    fn upload_image(&mut self, data: ImageUploadData) -> Result<UploadResponse, RobloxApiError> {
        self.names.push(data.name);
        self.answers.remove(0)
    }
}

fn image(name: &str) -> ImageUploadData {
    ImageUploadData {
        image_data: vec![1, 2, 3],
        name: name.to_owned(),
        description: "d".to_owned(),
        group_id: None,
        user_id: Some(5),
    }
}

fn ok(id: u64) -> Result<UploadResponse, RobloxApiError> {
    Ok(UploadResponse { asset_id: id, backing_asset_id: id + 1 })
}

#[test]
fn moderated_name_is_retried_once_under_the_fallback_name() {
    let mut client = Scripted {
        names: Vec::new(),
        answers: vec![
            Err(RobloxApiError::ApiError { message: "Name is inappropriate.".to_owned() }),
            ok(7),
        ],
    };
    let result = upload_image_with_moderation_retry(&mut client, image("rude"));
    assert_eq!(result.unwrap(), UploadResponse { asset_id: 7, backing_asset_id: 8 });
    assert_eq!(client.names, vec!["rude", "image"]);

    let mut client = Scripted {
        names: Vec::new(),
        answers: vec![
            Err(RobloxApiError::ResponseError { status: 400, body: "was moderated".to_owned() }),
            Err(RobloxApiError::ResponseError { status: 400, body: "was moderated".to_owned() }),
            ok(7),
        ],
    };
    let result = upload_image_with_moderation_retry(&mut client, image("rude"));
    assert!(matches!(result, Err(RobloxApiError::ResponseError { status: 400, .. })));
    assert_eq!(client.names, vec!["rude", "image"]);
}

#[test]
fn other_answers_are_not_retried() {
    let answers = vec![
        ok(1),
        Err(RobloxApiError::ApiError { message: "quota".to_owned() }),
        Err(RobloxApiError::ResponseError { status: 500, body: "moderated".to_owned() }),
        Err(RobloxApiError::ResponseError { status: 400, body: "bad".to_owned() }),
        Err(RobloxApiError::ResponseError { status: 429, body: "slow down".to_owned() }),
        Err(RobloxApiError::MissingCsrfToken),
    ];
    for answer in answers {
        let mut client = Scripted { names: Vec::new(), answers: vec![answer, ok(9)] };
        let result = upload_image_with_moderation_retry(&mut client, image("fine"));
        assert_eq!(client.names, vec!["fine"]);
        assert_ne!(result.ok(), Some(UploadResponse { asset_id: 9, backing_asset_id: 10 }));
    }
}

#[test]
fn errors_know_moderation_and_rate_limits() {
    let api = |message: &str| RobloxApiError::ApiError { message: message.to_owned() };
    let status = |status: u16, body: &str| RobloxApiError::ResponseError {
        status,
        body: body.to_owned(),
    };
    assert!(api("inappropriate").is_moderation_rejection());
    assert!(api("xinappropriatex").is_moderation_rejection());
    assert!(!api("inappropriat").is_moderation_rejection());
    assert!(!api("").is_moderation_rejection());
    assert!(status(400, "moderated").is_moderation_rejection());
    assert!(!status(401, "moderated").is_moderation_rejection());
    assert!(!status(400, "inappropriate").is_moderation_rejection());
    assert!(!RobloxApiError::MissingAuth.is_moderation_rejection());
    assert!(status(429, "").is_rate_limited());
    assert!(!status(430, "").is_rate_limited());
    assert!(!api("429").is_rate_limited());
}

#[test]
fn remote_backend_maps_the_answers_of_its_client() {
    assert_eq!(
        remote_result(ok(7)).unwrap(),
        BackendResponse { id: AssetId::Id(8) }
    );
    assert!(matches!(
        remote_result(Err(RobloxApiError::ResponseError { status: 429, body: String::new() })),
        Err(Error::RateLimited)
    ));
    assert!(matches!(
        remote_result(Err(RobloxApiError::ResponseError { status: 500, body: String::new() })),
        Err(Error::RobloxError { source: RobloxApiError::ResponseError { status: 500, .. } })
    ));
    assert!(matches!(
        remote_result(Err(RobloxApiError::MissingAuth)),
        Err(Error::RobloxError { source: RobloxApiError::MissingAuth })
    ));
}

#[test]
fn remote_backend_uploads_through_its_client() {
    let client = Scripted {
        names: Vec::new(),
        answers: vec![
            Err(RobloxApiError::ApiError { message: "inappropriate".to_owned() }),
            ok(40),
            Err(RobloxApiError::ResponseError { status: 429, body: String::new() }),
        ],
    };
    let mut backend = RobloxSyncBackend::new(client, Some(3), None);
    let info = || UploadInfo {
        name: "logo".to_owned(),
        contents: vec![9],
        hash: "h".to_owned(),
    };
    assert_eq!(backend.upload(info()).unwrap(), BackendResponse { id: AssetId::Id(41) });
    assert!(matches!(backend.upload(info()), Err(Error::RateLimited)));
    assert_eq!(backend.api_client.names, vec!["logo", "image", "logo"]);
}

#[test]
fn cloud_status_is_kept_where_it_is_a_status_code() {
    let status_of = |code: u16| match RobloxApiError::from_cloud_status(code, "body".to_owned()) {
        RobloxApiError::ResponseError { status, body } => {
            assert_eq!(body, "body");
            status
        }
        other => panic!("unexpected {:?}", other),
    };
    assert_eq!(status_of(404), 404);
    assert_eq!(status_of(100), 100);
    assert_eq!(status_of(999), 999);
    assert_eq!(status_of(99), 200);
    assert_eq!(status_of(1000), 200);
    assert_eq!(status_of(0), 200);
    assert_eq!(status_of(u16::MAX), 200);
}

#[test]
fn upload_answers_are_read() {
    let raw = |success, message: Option<&str>, asset_id, backing_asset_id| RawUploadResponse {
        success,
        message: message.map(str::to_owned),
        asset_id,
        backing_asset_id,
    };
    assert_eq!(
        interpret_upload(raw(true, None, Some(1), Some(2))).unwrap(),
        UploadResponse { asset_id: 1, backing_asset_id: 2 }
    );
    assert!(matches!(
        interpret_upload(raw(true, Some("x"), None, Some(2))),
        Err(RobloxApiError::MissingResponseField)
    ));
    assert!(matches!(
        interpret_upload(raw(true, None, Some(1), None)),
        Err(RobloxApiError::MissingResponseField)
    ));
    match interpret_upload(raw(false, Some("no"), Some(1), Some(2))) {
        Err(RobloxApiError::ApiError { message }) => assert_eq!(message, "no"),
        other => panic!("unexpected {:?}", other),
    }
    assert!(matches!(
        interpret_upload(raw(false, None, None, None)),
        Err(RobloxApiError::MissingResponseField)
    ));

    assert!(is_success(200) && is_success(299));
    assert!(!is_success(199) && !is_success(300));
    let parsed = || Ok(raw(true, None, Some(1), Some(2)));
    assert!(read_upload_answer(204, "b".to_owned(), parsed()).is_ok());
    assert!(matches!(
        read_upload_answer(403, "b".to_owned(), parsed()),
        Err(RobloxApiError::ResponseError { status: 403, .. })
    ));
    match read_upload_answer(200, "b".to_owned(), Err("eof".to_owned())) {
        Err(RobloxApiError::BadResponseJson { body, reason }) => {
            assert_eq!(body, "b");
            assert_eq!(reason, "eof");
        }
        other => panic!("unexpected {:?}", other.map(|_| ())),
    }
}

fn credentials(
    has_token: bool,
    has_api_key: bool,
    user_id: Option<u64>,
    group_id: Option<u64>,
) -> RobloxCredentials {
    RobloxCredentials { has_token, has_api_key, user_id, group_id }
}

#[test]
fn credentials_select_the_client() {
    assert!(matches!(
        get_preferred_client(credentials(false, false, Some(1), None)),
        Err(RobloxApiError::MissingAuth)
    ));
    assert!(matches!(
        get_preferred_client(credentials(true, true, Some(1), Some(2))),
        Err(RobloxApiError::AmbiguousCreatorType)
    ));
    assert_eq!(
        get_preferred_client(credentials(true, true, Some(1), None)).unwrap(),
        ClientKind::OpenCloud { creator: CreatorId::User(1) }
    );
    assert_eq!(
        get_preferred_client(credentials(false, true, None, Some(2))).unwrap(),
        ClientKind::OpenCloud { creator: CreatorId::Group(2) }
    );
    assert!(matches!(
        get_preferred_client(credentials(false, true, None, None)),
        Err(RobloxApiError::ApiKeyNeedsCreatorId)
    ));
    assert_eq!(
        get_preferred_client(credentials(true, false, None, None)).unwrap(),
        ClientKind::Legacy { ignores_user_id: false }
    );
    assert_eq!(
        get_preferred_client(credentials(true, false, Some(1), None)).unwrap(),
        ClientKind::Legacy { ignores_user_id: true }
    );
    assert!(matches!(
        cloud_creator(&credentials(true, true, Some(1), Some(2))),
        Err(RobloxApiError::AmbiguousCreatorType)
    ));
}

#[test]
fn creator_is_resolved_for_both_apis() {
    assert!(matches!(
        resolve_creator(&credentials(false, false, None, None)),
        Err(RobloxApiError::MissingAuth)
    ));
    assert_eq!(
        resolve_creator(&credentials(true, false, None, Some(4))).unwrap(),
        ResolvedCreator { creator: Some(CreatorId::Group(4)), ignores_user_id: false }
    );
    assert_eq!(
        resolve_creator(&credentials(true, false, Some(5), None)).unwrap(),
        ResolvedCreator { creator: Some(CreatorId::User(5)), ignores_user_id: true }
    );
    assert_eq!(
        resolve_creator(&credentials(false, true, Some(5), None)).unwrap(),
        ResolvedCreator { creator: Some(CreatorId::User(5)), ignores_user_id: false }
    );
    assert!(matches!(
        resolve_creator(&credentials(true, true, None, None)),
        Err(RobloxApiError::ApiKeyNeedsCreatorId)
    ));
    assert!(matches!(
        resolve_creator(&credentials(true, false, Some(1), Some(2))),
        Err(RobloxApiError::AmbiguousCreatorType)
    ));
    assert_eq!(
        resolve_creator(&credentials(true, false, None, None)).unwrap(),
        ResolvedCreator { creator: None, ignores_user_id: false }
    );

    assert_eq!(upload_route(false, Some(CreatorId::User(1))).unwrap(), UploadRoute::Legacy);
    assert_eq!(
        upload_route(true, Some(CreatorId::User(1))).unwrap(),
        UploadRoute::OpenCloud { creator: CreatorId::User(1) }
    );
    assert!(matches!(upload_route(true, None), Err(RobloxApiError::ApiKeyNeedsCreatorId)));

    assert_eq!(
        AssetCreator::from_id(CreatorId::User(4308133)),
        AssetCreator::User { user_id: "4308133".to_owned() }
    );
    assert_eq!(
        AssetCreator::from_id(CreatorId::Group(0)),
        AssetCreator::Group { group_id: "0".to_owned() }
    );
}

#[test]
fn addresses_are_built() {
    assert_eq!(build_url(None), "https://apis.roblox.com/assets/v1/assets");
    assert_eq!(build_url(Some(42)), "https://apis.roblox.com/assets/v1/assets/42");
    assert_eq!(
        operation_url("operations/abc"),
        "https://apis.roblox.com/assets/v1/operations/abc"
    );
    assert_eq!(
        legacy_upload_url(None),
        "https://data.roblox.com/data/upload/json?assetTypeId=13"
    );
    assert_eq!(
        legacy_upload_url(Some(9)),
        "https://data.roblox.com/data/upload/json?assetTypeId=13&groupId=9"
    );
    assert_eq!(download_url(0), "https://roblox.com/asset?id=0");
    assert_eq!(download_url(15090277769), "https://roblox.com/asset?id=15090277769");
    assert_eq!(RbxCloudApi::new("key".to_owned()).api_key(), "key");
}

#[test]
fn operation_is_named_behind_its_prefix() {
    assert_eq!(operation_id(Some("operations/abc-1".to_owned())).unwrap(), "abc-1");
    assert_eq!(operation_id(Some("operations/".to_owned())).unwrap(), "");
    assert!(matches!(operation_id(None), Err(RobloxApiError::MissingOperationPath)));
    assert!(matches!(
        operation_id(Some("operation/abc".to_owned())),
        Err(RobloxApiError::MalformedOperationPath)
    ));
    assert!(matches!(
        operation_id(Some("x/operations/abc".to_owned())),
        Err(RobloxApiError::MalformedOperationPath)
    ));
}

#[test]
fn polling_backs_off_with_the_square_of_the_count() {
    let mut count = 0;
    let mut sleeps = Vec::new();
    loop {
        match poll_step(count, None) {
            PollStep::Wait { retry_count, sleep_millis } => {
                assert_eq!(retry_count, count + 1);
                sleeps.push(sleep_millis);
                count = retry_count;
            }
            PollStep::Failed { error } => {
                assert!(matches!(error, RobloxApiError::AssetGetFailed));
                break;
            }
            PollStep::Done { .. } => panic!("nothing resolved"),
        }
    }
    assert_eq!(sleeps, vec![50, 200, 450, 800, 1250, 1800]);
    assert_eq!(count, MAX_RETRIES + 1);
    assert_eq!(INITIAL_SLEEP_MILLIS, 50);
    assert!(matches!(poll_step(u32::MAX, None), PollStep::Failed { .. }));
}

#[test]
fn polling_ends_when_the_asset_resolves() {
    assert!(matches!(
        poll_step(0, Some("123".to_owned())),
        PollStep::Done { asset_id: 123 }
    ));
    assert!(matches!(
        poll_step(9, Some("18446744073709551615".to_owned())),
        PollStep::Done { asset_id: u64::MAX }
    ));
    match poll_step(2, Some("12a".to_owned())) {
        PollStep::Failed { error: RobloxApiError::MalformedAssetId { text } } => {
            assert_eq!(text, "12a")
        }
        other => panic!("unexpected {:?}", other),
    }
    assert!(matches!(
        poll_step(2, Some("18446744073709551616".to_owned())),
        PollStep::Failed { error: RobloxApiError::MalformedAssetId { .. } }
    ));
    for (text, number) in [("+7", 7u64), ("007", 7), ("0", 0), ("+0", 0), ("+00018", 18)] {
        match poll_step(0, Some(text.to_owned())) {
            PollStep::Done { asset_id } => assert_eq!(asset_id, number),
            other => panic!("unexpected {:?}", other),
        }
    }
    for text in ["", "+", "-0", "-7", " 7", "7 ", "++7", "7+", "1_000", "0x10", "٣", "1.0"] {
        assert!(matches!(
            poll_step(0, Some(text.to_owned())),
            PollStep::Failed { error: RobloxApiError::MalformedAssetId { .. } }
        ));
    }
    assert!(matches!(
        poll_decision(3, Some("7".to_owned()), Some(7)),
        PollStep::Done { asset_id: 7 }
    ));
    assert!(matches!(
        poll_decision(3, None, Some(7)),
        PollStep::Wait { retry_count: 4, sleep_millis: 800 }
    ));
}

#[test]
fn forbidden_answer_with_a_token_is_sent_again() {
    assert_eq!(
        csrf_step(403, Some("t".to_owned())),
        CsrfStep::RetryWith { token: "t".to_owned() }
    );
    assert_eq!(csrf_step(403, None), CsrfStep::Accept);
    assert_eq!(csrf_step(200, Some("t".to_owned())), CsrfStep::Accept);
    assert_eq!(csrf_step(401, Some("t".to_owned())), CsrfStep::Accept);
}
