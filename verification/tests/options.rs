use tarmac::options::{
    AssetListOptions, CreateCacheMapOptions, Subcommand, SyncOptions, SyncTarget,
    UploadImageOptions,
};

#[test]
fn sync_targets_are_named() {
    assert_eq!(SyncTarget::parse("remote"), Ok(SyncTarget::Roblox));
    assert_eq!("remote".parse::<SyncTarget>(), Ok(SyncTarget::Roblox));
    assert_eq!(SyncTarget::parse("none"), Ok(SyncTarget::NoUpload));
    assert_eq!(SyncTarget::parse("debug"), Ok(SyncTarget::Debug));
    assert_eq!(SyncTarget::parse("local"), Ok(SyncTarget::Local));
    assert_eq!("local".parse::<SyncTarget>(), Ok(SyncTarget::Local));
}

#[test]
fn other_words_name_no_sync_target() {
    let message = "Invalid sync target. Valid options are remote, local, none, and debug.";
    for word in ["", "Remote", "roblox", "none ", "locals", "debu", " remote", "REMOTE"] {
        assert_eq!(SyncTarget::parse(word), Err(message.to_owned()));
        assert_eq!(word.parse::<SyncTarget>(), Err(message.to_owned()));
    }
}

#[test]
fn retries_default_to_none() {
    let options = |retry| SyncOptions {
        target: SyncTarget::Roblox,
        retry,
        retry_delay: 60,
        config_path: None,
    };
    assert_eq!(options(None).max_retries(), 0);
    assert_eq!(options(Some(0)).max_retries(), 0);
    assert_eq!(options(Some(5)).max_retries(), 5);
}

#[test]
fn commands_carry_their_options() {
    let commands = vec![
        Subcommand::UploadImage(UploadImageOptions {
            path: "logo.png".to_owned(),
            name: "logo".to_owned(),
            description: "Uploaded by Tarmac.".to_owned(),
            group_id: None,
            user_id: Some(1),
        }),
        Subcommand::Sync(SyncOptions {
            target: SyncTarget::Debug,
            retry: Some(2),
            retry_delay: 1,
            config_path: Some("project".to_owned()),
        }),
        Subcommand::CreateCacheMap(CreateCacheMapOptions {
            project_path: None,
            cache_dir: "cache".to_owned(),
            index_file: "index.json".to_owned(),
        }),
        Subcommand::AssetList(AssetListOptions {
            project_path: None,
            output: "assets.txt".to_owned(),
        }),
    ];
    assert_eq!(commands.len(), 4);
    assert!(matches!(&commands[1], Subcommand::Sync(options) if options.target == SyncTarget::Debug));
}
