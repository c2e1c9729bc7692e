use std::cell::Cell;
use std::rc::Rc;

use tarmac::data::AssetId;
use tarmac::sync_backend::{
    DebugSyncBackend, Delay, Error, LocalSyncBackend, NoDelay, NoneSyncBackend, RetryBackend,
    SyncBackend, UploadInfo, UploadResponse,
};

struct CountUploads<'a> {
    counter: &'a mut usize,
    results: Vec<Result<UploadResponse, Error>>,
}

impl<'a> CountUploads<'a> {
    fn new(counter: &'a mut usize) -> Self {
        Self {
            counter,
            results: Vec::new(),
        }
    }

    fn with_results(mut self, results: Vec<Result<UploadResponse, Error>>) -> Self {
        self.results = results;
        self.results.reverse();
        self
    }
}

impl<'a> SyncBackend for CountUploads<'a> {
    fn upload(&mut self, _data: UploadInfo) -> Result<UploadResponse, Error> {
        (*self.counter) += 1;
        self.results.pop().unwrap_or(Err(Error::NoneBackend))
    }
}

/// A delay that only counts how often it was asked to wait.
#[derive(Clone)]
struct CountedDelay {
    waits: Rc<Cell<usize>>,
}

impl Delay for CountedDelay {
    fn wait(&mut self) {
        self.waits.set(self.waits.get() + 1);
    }
}

fn any_upload_info() -> UploadInfo {
    UploadInfo {
        name: "foo".to_owned(),
        contents: Vec::new(),
        hash: "hash".to_owned(),
    }
}

fn retry_duration() -> CountedDelay {
    CountedDelay {
        waits: Rc::new(Cell::new(0)),
    }
}

#[test]
#[allow(unused_must_use)]
fn upload_at_least_once() {
    let mut counter = 0;
    let mut backend = RetryBackend::new(CountUploads::new(&mut counter), 0, retry_duration());

    backend.upload(any_upload_info());

    assert_eq!(counter, 1);
}

#[test]
#[allow(unused_must_use)]
fn upload_again_if_rate_limited() {
    let mut counter = 0;
    let inner = CountUploads::new(&mut counter).with_results(vec![
        Err(Error::RateLimited),
        Err(Error::RateLimited),
        Err(Error::NoneBackend),
    ]);
    let mut backend = RetryBackend::new(inner, 5, retry_duration());

    backend.upload(any_upload_info());

    assert_eq!(counter, 3);
}

#[test]
fn upload_returns_first_success_result() {
    let mut counter = 0;
    let success = UploadResponse {
        id: AssetId::Id(10),
    };
    let inner = CountUploads::new(&mut counter).with_results(vec![
        Err(Error::RateLimited),
        Err(Error::RateLimited),
        Ok(success.clone()),
    ]);
    let mut backend = RetryBackend::new(inner, 5, retry_duration());

    let upload_result = backend.upload(any_upload_info()).unwrap();

    assert_eq!(counter, 3);
    assert_eq!(upload_result, success);
}

#[test]
fn upload_returns_rate_limited_when_retries_exhausted() {
    let mut counter = 0;
    let inner = CountUploads::new(&mut counter).with_results(vec![
        Err(Error::RateLimited),
        Err(Error::RateLimited),
        Err(Error::RateLimited),
        Err(Error::RateLimited),
    ]);
    let mut backend = RetryBackend::new(inner, 2, retry_duration());

    let upload_result = backend.upload(any_upload_info()).unwrap_err();

    assert_eq!(counter, 3);
    assert!(matches!(upload_result, Error::RateLimited));
}

#[test]
fn retry_budget_of_zero_makes_one_call_whatever_the_result() {
    for limited in [false, true] {
        let mut counter = 0;
        let first = if limited {
            Err(Error::RateLimited)
        } else {
            Ok(UploadResponse { id: AssetId::Id(1) })
        };
        let inner = CountUploads::new(&mut counter).with_results(vec![
            first,
            Ok(UploadResponse { id: AssetId::Id(2) }),
        ]);
        let delay = retry_duration();
        let mut backend = RetryBackend::new(inner, 0, delay.clone());
        let result = backend.upload(any_upload_info());
        if limited {
            assert!(matches!(result, Err(Error::RateLimited)));
        } else {
            assert_eq!(result.unwrap(), UploadResponse { id: AssetId::Id(1) });
        }
        assert_eq!(counter, 1);
        assert_eq!(delay.waits.get(), 0);
    }
}

#[test]
fn the_delay_passes_between_attempts_and_not_before_the_first() {
    let mut counter = 0;
    let inner = CountUploads::new(&mut counter).with_results(vec![
        Err(Error::RateLimited),
        Err(Error::RateLimited),
        Ok(UploadResponse { id: AssetId::Id(7) }),
    ]);
    let delay = retry_duration();
    let mut backend = RetryBackend::new(inner, 5, delay.clone());
    let result = backend.upload(any_upload_info()).unwrap();
    assert_eq!(result.id, AssetId::Id(7));
    assert_eq!(counter, 3);
    assert_eq!(delay.waits.get(), 2);
}

#[test]
fn other_errors_are_not_retried() {
    let mut counter = 0;
    let inner = CountUploads::new(&mut counter).with_results(vec![
        Err(Error::Io { message: "disk full".to_owned() }),
        Ok(UploadResponse { id: AssetId::Id(7) }),
    ]);
    let delay = retry_duration();
    let mut backend = RetryBackend::new(inner, 5, delay.clone());
    let result = backend.upload(any_upload_info());
    assert!(matches!(result, Err(Error::Io { .. })));
    assert_eq!(counter, 1);
    assert_eq!(delay.waits.get(), 0);
}

#[test]
fn exhausted_retries_wait_before_each_further_attempt() {
    let mut counter = 0;
    let inner = CountUploads::new(&mut counter).with_results(vec![
        Err(Error::RateLimited),
        Err(Error::RateLimited),
        Err(Error::RateLimited),
        Ok(UploadResponse { id: AssetId::Id(7) }),
    ]);
    let delay = retry_duration();
    let mut backend = RetryBackend::new(inner, 2, delay.clone());
    let result = backend.upload(any_upload_info());
    assert!(matches!(result, Err(Error::RateLimited)));
    assert_eq!(counter, 3);
    assert_eq!(delay.waits.get(), 2);
}

#[test]
fn none_backend_always_fails() {
    let mut backend = NoneSyncBackend;
    assert!(matches!(backend.upload(any_upload_info()), Err(Error::NoneBackend)));
    assert!(matches!(backend.upload(any_upload_info()), Err(Error::NoneBackend)));

    let delay = retry_duration();
    let mut retried = RetryBackend::new(NoneSyncBackend, 3, delay.clone());
    assert!(matches!(retried.upload(any_upload_info()), Err(Error::NoneBackend)));
    assert_eq!(delay.waits.get(), 0);
}

#[test]
fn debug_backend_numbers_from_one() {
    let mut backend = DebugSyncBackend::new();
    assert_eq!(backend.last(), 0);
    assert_eq!(backend.next_id(), 1);
    assert_eq!(backend.next_id(), 2);
    assert_eq!(backend.last(), 2);
    assert_eq!(DebugSyncBackend::directory(), ".tarmac-debug");
    assert_eq!(
        DebugSyncBackend::file_path(12),
        std::path::Path::new(".tarmac-debug").join("12").to_string_lossy()
    );
    assert_eq!(DebugSyncBackend::response(2), UploadResponse { id: AssetId::Id(2) });
}

#[test]
fn local_backend_derives_the_path_from_the_name_and_the_scope() {
    let join = |parts: &[&str]| -> String {
        let mut path = std::path::PathBuf::new();
        for part in parts {
            path.push(part);
        }
        path.to_string_lossy().into_owned()
    };

    let plain = LocalSyncBackend::new("content".to_owned(), None);
    assert_eq!(plain.get_asset_file_name(&any_upload_info()), "foo.png");
    assert_eq!(plain.get_asset_path(&any_upload_info()), join(&[".tarmac", "foo.png"]));
    assert_eq!(
        plain.get_file_path(&any_upload_info()),
        join(&["content", ".tarmac", "foo.png"])
    );

    let scoped = LocalSyncBackend::new("content".to_owned(), Some("game".to_owned()));
    assert_eq!(
        scoped.get_asset_path(&any_upload_info()),
        join(&[".tarmac", "game", "foo.png"])
    );
    assert_eq!(
        scoped.response(&any_upload_info()),
        UploadResponse { id: AssetId::Path(join(&[".tarmac", "game", "foo.png"])) }
    );
}

#[test]
fn upload_info_duplicate_is_equal() {
    let info = UploadInfo {
        name: "foo".to_owned(),
        contents: vec![1, 2, 3],
        hash: "hash".to_owned(),
    };
    let copy = info.duplicate();
    assert_eq!(copy.name, info.name);
    assert_eq!(copy.contents, info.contents);
    assert_eq!(copy.hash, info.hash);
}

#[test]
fn the_delay_that_does_not_wait_still_retries() {
    let mut counter = 0;
    let inner = CountUploads::new(&mut counter).with_results(vec![
        Err(Error::RateLimited),
        Ok(UploadResponse { id: AssetId::Id(3) }),
    ]);
    let mut backend = RetryBackend::new(inner, 1, NoDelay);
    assert_eq!(backend.upload(any_upload_info()).unwrap().id, AssetId::Id(3));
    assert_eq!(counter, 2);
}
