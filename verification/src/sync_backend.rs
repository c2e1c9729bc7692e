//! Upload backends: where changed assets go, and how often an upload is
//! tried.
//!
//! A backend says in `upload_spec` what one call of `upload` may do. The
//! retry decorator and the remote backend are stated over the `upload_spec`
//! of what they wrap, so that what is proved of them holds for every
//! backend and every client.

use vstd::prelude::*;
use std::path::Path;
use crate::data::AssetId;
use crate::roblox_api::{moderated_upload, upload_image_with_moderation_retry, Api,
    ImageUploadData, ImageUploadView, RobloxApiError};

verus! {

/// What an upload gives: the identifier of the asset.
#[derive(Clone, Debug, PartialEq, Eq)]
pub struct UploadResponse {
    pub id: AssetId,
}

/// What is uploaded: a name, the encoded bytes and their hash.
#[derive(Clone, Debug)]
pub struct UploadInfo {
    pub name: String,
    pub contents: Vec<u8>,
    pub hash: String,
}

/// What is uploaded, as a mathematical value.
pub struct UploadInfoView {
    pub name: Seq<char>,
    pub contents: Seq<u8>,
    pub hash: Seq<char>,
}

impl View for UploadInfo {
    type V = UploadInfoView;

    open spec fn view(&self) -> UploadInfoView {
        UploadInfoView { name: self.name@, contents: self.contents@, hash: self.hash@ }
    }
}

impl UploadInfo {
    /// A copy with the same name, bytes and hash.
    pub fn duplicate(&self) -> (copy: UploadInfo)
        ensures
            copy@ == self@,
    {
        let copy = UploadInfo {
            name: self.name.clone(),
            contents: self.contents.clone(),
            hash: self.hash.clone(),
        };
        assert(copy.contents@ =~= self.contents@);
        copy
    }
}

/// Why an upload failed.
#[derive(Debug)]
pub enum Error {
    /// The project opted out of uploading, and something needs an upload.
    NoneBackend,
    /// The service turned the upload away for the time being, also after
    /// every retry that was allowed.
    RateLimited,
    /// The local installation to copy into was not found.
    StudioInstall { message: String },
    /// A file could not be written.
    Io { message: String },
    /// The hosting service or the way to it failed.
    RobloxError { source: RobloxApiError },
}

impl Error {
    /// The error ends the pass: a backend without partial success failed,
    /// which the backend that never uploads and those that write files
    /// are.
    pub open spec fn spec_halts_pass(self) -> bool {
        self is NoneBackend || self is Io || self is StudioInstall
    }

    /// Whether the error ends the pass.
    pub fn halts_pass(&self) -> (halts: bool)
        ensures
            halts == self.spec_halts_pass(),
    {
        match self {
            Error::NoneBackend => true,
            Error::Io { .. } => true,
            Error::StudioInstall { .. } => true,
            Error::RateLimited => false,
            Error::RobloxError { .. } => false,
        }
    }
}

/// Whether `result` is the rate-limit error.
pub open spec fn is_rate_limited(result: Result<UploadResponse, Error>) -> bool {
    result is Err && result->Err_0 is RateLimited
}

/// A destination for uploads.
pub trait SyncBackend: Sized {
    /// What one call of `upload` may do: from the backend `self` and the
    /// upload `data` to the answer `result` and the backend `after`. A
    /// backend that says nothing may do anything.
    open spec fn upload_spec(
        &self,
        data: UploadInfoView,
        result: Result<UploadResponse, Error>,
        after: &Self,
    ) -> bool {
        true
    }

    /// Uploads `data`.
    fn upload(&mut self, data: UploadInfo) -> (result: Result<UploadResponse, Error>)
        ensures
            old(self).upload_spec(data@, result, final(self)),
    ;
}

/// A pause between two attempts.
pub trait Delay: Sized {
    /// What one call of `wait` may do to the delay. A delay that says
    /// nothing may do anything.
    open spec fn wait_spec(&self, after: &Self) -> bool {
        true
    }

    /// Blocks for the time that the delay stands for.
    fn wait(&mut self)
        ensures
            old(self).wait_spec(final(self)),
    ;
}

/// The delay that does not wait.
#[derive(Debug, Clone, Copy, PartialEq, Eq, Structural)]
pub struct NoDelay;

impl Delay for NoDelay {
    open spec fn wait_spec(&self, after: &Self) -> bool {
        true
    }

    fn wait(&mut self) {
    }
}

/// The backend of a project that opted out of uploading: every upload
/// fails.
pub struct NoneSyncBackend;

impl SyncBackend for NoneSyncBackend {
    open spec fn upload_spec(
        &self,
        data: UploadInfoView,
        result: Result<UploadResponse, Error>,
        after: &Self,
    ) -> bool {
        result is Err && result->Err_0 is NoneBackend
    }

    fn upload(&mut self, _data: UploadInfo) -> (result: Result<UploadResponse, Error>) {
        Err(Error::NoneBackend)
    }
}

/// The answer of the remote backend to the answer of its client: the
/// backing asset's identifier on success, the rate-limit error for the
/// status 429, and the client's error otherwise.
pub open spec fn spec_remote_result(
    answer: Result<crate::roblox_api::UploadResponse, RobloxApiError>,
) -> Result<UploadResponse, Error> {
    match answer {
        Ok(response) => Ok(UploadResponse { id: AssetId::Id(response.backing_asset_id) }),
        Err(error) => if error.is_rate_limit() {
            Err(Error::RateLimited)
        } else {
            Err(Error::RobloxError { source: error })
        },
    }
}

/// The answer of the remote backend to the answer of its client.
pub fn remote_result(answer: Result<crate::roblox_api::UploadResponse, RobloxApiError>) -> (result:
    Result<UploadResponse, Error>)
    ensures
        result == spec_remote_result(answer),
{
    match answer {
        Ok(response) => Ok(UploadResponse { id: AssetId::Id(response.backing_asset_id) }),
        Err(error) => if error.is_rate_limited() {
            Err(Error::RateLimited)
        } else {
            Err(Error::RobloxError { source: error })
        },
    }
}

/// The backend that uploads to the hosting service through a client.
pub struct RobloxSyncBackend<Client: Api> {
    pub api_client: Client,
    pub upload_to_group_id: Option<u64>,
    pub upload_to_user_id: Option<u64>,
}

/// The image that the remote backend hands to its client for `data`.
pub open spec fn remote_image(
    data: UploadInfoView,
    group_id: Option<u64>,
    user_id: Option<u64>,
) -> ImageUploadView {
    ImageUploadView {
        image_data: data.contents,
        name: data.name,
        description: "Uploaded by Tarmac."@,
        group_id,
        user_id,
    }
}

impl<Client: Api> RobloxSyncBackend<Client> {
    pub fn new(
        api_client: Client,
        upload_to_group_id: Option<u64>,
        upload_to_user_id: Option<u64>,
    ) -> (backend: Self)
        ensures
            backend.api_client == api_client,
            backend.upload_to_group_id == upload_to_group_id,
            backend.upload_to_user_id == upload_to_user_id,
    {
        RobloxSyncBackend { api_client, upload_to_group_id, upload_to_user_id }
    }
}

impl<Client: Api> SyncBackend for RobloxSyncBackend<Client> {
    /// One upload through the client, with its moderation fallback; the
    /// creator stays.
    open spec fn upload_spec(
        &self,
        data: UploadInfoView,
        result: Result<UploadResponse, Error>,
        after: &Self,
    ) -> bool {
        &&& after.upload_to_group_id == self.upload_to_group_id
        &&& after.upload_to_user_id == self.upload_to_user_id
        &&& exists|answer: Result<crate::roblox_api::UploadResponse, RobloxApiError>|
            {
                &&& #[trigger] moderated_upload(
                    self.api_client,
                    remote_image(data, self.upload_to_group_id, self.upload_to_user_id),
                    answer,
                    after.api_client,
                )
                &&& result == spec_remote_result(answer)
            }
    }

    fn upload(&mut self, data: UploadInfo) -> (result: Result<UploadResponse, Error>) {
        let image = ImageUploadData {
            image_data: data.contents,
            name: data.name,
            description: String::from_str("Uploaded by Tarmac."),
            group_id: self.upload_to_group_id,
            user_id: self.upload_to_user_id,
        };
        assert(image@ == remote_image(data@, self.upload_to_group_id, self.upload_to_user_id));
        let answer = upload_image_with_moderation_retry(&mut self.api_client, image);
        assert(moderated_upload(
            old(self).api_client,
            remote_image(data@, old(self).upload_to_group_id, old(self).upload_to_user_id),
            answer,
            self.api_client,
        ));
        remote_result(answer)
    }
}

/// The path that `std::path::Path::join` makes of `base` and `part`.
pub uninterp spec fn path_join(base: Seq<char>, part: Seq<char>) -> Seq<char>;

/// `std::path::Path::join`: `part` below `base`. The result is a function
/// of the two texts.
#[verifier::external_body]
fn join(base: &str, part: &str) -> (joined: String)
    ensures
        joined@ == path_join(base@, part@),
{
    Path::new(base).join(part).to_string_lossy().into_owned()
}

/// The backend that copies into the content folder of a local
/// installation.
pub struct LocalSyncBackend {
    pub content_path: String,
    pub scope: Option<String>,
}

impl LocalSyncBackend {
    /// A backend that copies below `content_path`, into the directory
    /// `scope` of its own folder where a scope is given.
    pub fn new(content_path: String, scope: Option<String>) -> (backend: LocalSyncBackend)
        ensures
            backend.content_path == content_path,
            backend.scope == scope,
    {
        LocalSyncBackend { content_path, scope }
    }

    /// The file name of an upload: its name and `.png`.
    pub open spec fn spec_asset_file_name(data: UploadInfoView) -> Seq<char> {
        data.name + ".png"@
    }

    /// The path of an upload below the content folder: `.tarmac`, the scope
    /// where there is one, and the file name.
    pub open spec fn spec_asset_path(self, data: UploadInfoView) -> Seq<char> {
        match self.scope {
            Some(scope) => path_join(
                path_join(".tarmac"@, scope@),
                Self::spec_asset_file_name(data),
            ),
            None => path_join(".tarmac"@, Self::spec_asset_file_name(data)),
        }
    }

    /// The file name of an upload.
    pub fn get_asset_file_name(&self, data: &UploadInfo) -> (file_name: String)
        ensures
            file_name@ == Self::spec_asset_file_name(data@),
    {
        let mut file_name = data.name.clone();
        file_name.append(".png");
        file_name
    }

    /// The path of an upload below the content folder.
    pub fn get_asset_path(&self, data: &UploadInfo) -> (path: String)
        ensures
            path@ == self.spec_asset_path(data@),
    {
        let file_name = self.get_asset_file_name(data);
        match &self.scope {
            Some(scope) => {
                let scoped = join(".tarmac", scope.as_str());
                join(scoped.as_str(), file_name.as_str())
            },
            None => join(".tarmac", file_name.as_str()),
        }
    }

    /// The file that an upload is written to: its path below the content
    /// folder.
    pub fn get_file_path(&self, data: &UploadInfo) -> (path: String)
        ensures
            path@ == path_join(self.content_path@, self.spec_asset_path(data@)),
    {
        let asset_path = self.get_asset_path(data);
        join(self.content_path.as_str(), asset_path.as_str())
    }

    /// The answer to an upload that was written: its path below the content
    /// folder.
    pub fn response(&self, data: &UploadInfo) -> (response: UploadResponse)
        ensures
            response.id matches AssetId::Path(path) && path@ == self.spec_asset_path(data@),
    {
        UploadResponse { id: AssetId::Path(self.get_asset_path(data)) }
    }
}

/// The backend that copies into a debug directory and numbers what it
/// copies from 1.
pub struct DebugSyncBackend {
    last_id: u64,
}

impl DebugSyncBackend {
    /// A backend that has given out no identifier yet.
    pub fn new() -> (backend: DebugSyncBackend)
        ensures
            backend.last_id() == 0,
    {
        DebugSyncBackend { last_id: 0 }
    }

    /// The identifier given out last; 0 before the first.
    pub closed spec fn last_id(&self) -> u64 {
        self.last_id
    }

    /// The identifier given out last; 0 before the first.
    pub fn last(&self) -> (id: u64)
        ensures
            id == self.last_id(),
    {
        self.last_id
    }

    /// The directory that the copies go to.
    pub fn directory() -> (path: &'static str)
        ensures
            path@ == ".tarmac-debug"@,
    {
        ".tarmac-debug"
    }

    /// Gives out the next identifier: one more than the last.
    pub fn next_id(&mut self) -> (id: u64)
        requires
            old(self).last_id() < u64::MAX,
        ensures
            id == old(self).last_id() + 1,
            final(self).last_id() == id,
    {
        self.last_id += 1;
        self.last_id
    }

    /// The file that the copy with the identifier `id` is written to: the
    /// identifier in decimal, in the debug directory.
    pub fn file_path(id: u64) -> (path: String)
        ensures
            path@ == path_join(".tarmac-debug"@, crate::text::decimal(id as nat)),
    {
        let name = crate::text::decimal_string(id);
        join(".tarmac-debug", name.as_str())
    }

    /// The answer to an upload that was copied under `id`.
    pub fn response(id: u64) -> (response: UploadResponse)
        ensures
            response == (UploadResponse { id: AssetId::Id(id) }),
    {
        UploadResponse { id: AssetId::Id(id) }
    }
}

/// One attempt of a retried upload: a pause, unless the attempt is the
/// first, and one call of the wrapped backend. `delay_mid` is the delay
/// after the pause, `answer` what the wrapped backend answered, and
/// `inner_mid` the wrapped backend after its call.
pub open spec fn retry_attempt<B: SyncBackend, D: Delay>(
    inner: B,
    delay: D,
    data: UploadInfoView,
    first: bool,
    delay_mid: D,
    answer: Result<UploadResponse, Error>,
    inner_mid: B,
) -> bool {
    &&& if first {
        delay_mid == delay
    } else {
        delay.wait_spec(&delay_mid)
    }
    &&& inner.upload_spec(data, answer, &inner_mid)
}

/// A retried upload with `attempts` attempts left, in which the wrapped
/// backend is called `calls` times. With no attempt left the answer is the
/// rate-limit error and nothing is called. Otherwise there is one attempt;
/// its answer stands unless it is the rate-limit error, in which case the
/// upload goes on with one attempt less.
pub open spec fn retry_run<B: SyncBackend, D: Delay>(
    inner: B,
    delay: D,
    data: UploadInfoView,
    attempts: nat,
    first: bool,
    result: Result<UploadResponse, Error>,
    inner_end: B,
    delay_end: D,
    calls: nat,
) -> bool
    decreases attempts,
{
    if attempts == 0 {
        is_rate_limited(result) && inner_end == inner && delay_end == delay && calls == 0
    } else {
        exists|delay_mid: D, answer: Result<UploadResponse, Error>, inner_mid: B|
            {
                &&& #[trigger] retry_attempt(inner, delay, data, first, delay_mid, answer, inner_mid)
                &&& calls >= 1
                &&& if is_rate_limited(answer) {
                    retry_run(
                        inner_mid,
                        delay_mid,
                        data,
                        (attempts - 1) as nat,
                        false,
                        result,
                        inner_end,
                        delay_end,
                        (calls - 1) as nat,
                    )
                } else {
                    result == answer && inner_end == inner_mid && delay_end == delay_mid && calls
                        == 1
                }
            }
    }
}

/// A retried upload with attempts left holds of one attempt and of what
/// follows it.
pub proof fn lemma_retry_attempt<B: SyncBackend, D: Delay>(
    inner: B,
    delay: D,
    data: UploadInfoView,
    attempts: nat,
    first: bool,
    result: Result<UploadResponse, Error>,
    inner_end: B,
    delay_end: D,
    calls: nat,
    delay_mid: D,
    answer: Result<UploadResponse, Error>,
    inner_mid: B,
)
    requires
        attempts > 0,
        calls >= 1,
        retry_attempt(inner, delay, data, first, delay_mid, answer, inner_mid),
        if is_rate_limited(answer) {
            retry_run(
                inner_mid,
                delay_mid,
                data,
                (attempts - 1) as nat,
                false,
                result,
                inner_end,
                delay_end,
                (calls - 1) as nat,
            )
        } else {
            result == answer && inner_end == inner_mid && delay_end == delay_mid && calls == 1
        },
    ensures
        retry_run(inner, delay, data, attempts, first, result, inner_end, delay_end, calls),
{
}

/// The retry budget: the wrapped backend is never called more often than
/// there are attempts, and at least once where there is one. Only an
/// upload that has used up every attempt ends in the rate-limit error.
pub proof fn lemma_retry_budget<B: SyncBackend, D: Delay>(
    inner: B,
    delay: D,
    data: UploadInfoView,
    attempts: nat,
    first: bool,
    result: Result<UploadResponse, Error>,
    inner_end: B,
    delay_end: D,
    calls: nat,
)
    requires
        retry_run(inner, delay, data, attempts, first, result, inner_end, delay_end, calls),
    ensures
        calls <= attempts,
        attempts > 0 ==> calls >= 1,
        is_rate_limited(result) ==> calls == attempts,
    decreases attempts,
{
    if attempts > 0 {
        let (delay_mid, answer, inner_mid) = choose|
            delay_mid: D,
            answer: Result<UploadResponse, Error>,
            inner_mid: B,
        |
            {
                &&& #[trigger] retry_attempt(inner, delay, data, first, delay_mid, answer, inner_mid)
                &&& calls >= 1
                &&& if is_rate_limited(answer) {
                    retry_run(
                        inner_mid,
                        delay_mid,
                        data,
                        (attempts - 1) as nat,
                        false,
                        result,
                        inner_end,
                        delay_end,
                        (calls - 1) as nat,
                    )
                } else {
                    result == answer && inner_end == inner_mid && delay_end == delay_mid && calls
                        == 1
                }
            };
        if is_rate_limited(answer) {
            lemma_retry_budget(
                inner_mid,
                delay_mid,
                data,
                (attempts - 1) as nat,
                false,
                result,
                inner_end,
                delay_end,
                (calls - 1) as nat,
            );
        }
    }
}

/// What a retried upload answers, unless it is the rate-limit error, is
/// what the wrapped backend answered in its last call; nothing is made up
/// and nothing is held back.
pub proof fn lemma_retry_hands_on<B: SyncBackend, D: Delay>(
    inner: B,
    delay: D,
    data: UploadInfoView,
    attempts: nat,
    first: bool,
    result: Result<UploadResponse, Error>,
    inner_end: B,
    delay_end: D,
    calls: nat,
)
    requires
        retry_run(inner, delay, data, attempts, first, result, inner_end, delay_end, calls),
        !is_rate_limited(result),
    ensures
        exists|before: B| #[trigger] before.upload_spec(data, result, &inner_end),
    decreases attempts,
{
    let (delay_mid, answer, inner_mid) = choose|
        delay_mid: D,
        answer: Result<UploadResponse, Error>,
        inner_mid: B,
    |
        {
            &&& #[trigger] retry_attempt(inner, delay, data, first, delay_mid, answer, inner_mid)
            &&& calls >= 1
            &&& if is_rate_limited(answer) {
                retry_run(
                    inner_mid,
                    delay_mid,
                    data,
                    (attempts - 1) as nat,
                    false,
                    result,
                    inner_end,
                    delay_end,
                    (calls - 1) as nat,
                )
            } else {
                result == answer && inner_end == inner_mid && delay_end == delay_mid && calls == 1
            }
        };
    if is_rate_limited(answer) {
        lemma_retry_hands_on(
            inner_mid,
            delay_mid,
            data,
            (attempts - 1) as nat,
            false,
            result,
            inner_end,
            delay_end,
            (calls - 1) as nat,
        );
    } else {
        assert(inner.upload_spec(data, result, &inner_end));
    }
}

/// With no retry allowed the wrapped backend is called once, without a
/// pause, and what it answers is handed on, whatever it is.
pub proof fn lemma_single_attempt<B: SyncBackend, D: Delay>(
    inner: B,
    delay: D,
    data: UploadInfoView,
    result: Result<UploadResponse, Error>,
    inner_end: B,
    delay_end: D,
    calls: nat,
)
    requires
        retry_run(inner, delay, data, 1, true, result, inner_end, delay_end, calls),
    ensures
        calls == 1,
        delay_end == delay,
        inner.upload_spec(data, result, &inner_end),
{
    lemma_retry_budget(inner, delay, data, 1, true, result, inner_end, delay_end, calls);
    let (delay_mid, answer, inner_mid) = choose|
        delay_mid: D,
        answer: Result<UploadResponse, Error>,
        inner_mid: B,
    |
        {
            &&& #[trigger] retry_attempt(inner, delay, data, true, delay_mid, answer, inner_mid)
            &&& calls >= 1
            &&& if is_rate_limited(answer) {
                retry_run(
                    inner_mid,
                    delay_mid,
                    data,
                    0,
                    false,
                    result,
                    inner_end,
                    delay_end,
                    (calls - 1) as nat,
                )
            } else {
                result == answer && inner_end == inner_mid && delay_end == delay_mid && calls == 1
            }
        };
    if is_rate_limited(answer) {
        assert(result == answer);
    }
}

/// A backend that tries an upload again when the wrapped backend reports
/// that it was rate-limited, with a pause before each further attempt.
pub struct RetryBackend<InnerSyncBackend, D> {
    inner: InnerSyncBackend,
    delay: D,
    attempts: usize,
}

impl<InnerSyncBackend, D> RetryBackend<InnerSyncBackend, D> {
    /// The wrapped backend.
    pub closed spec fn inner(&self) -> InnerSyncBackend {
        self.inner
    }

    /// The pause between attempts.
    pub closed spec fn delay(&self) -> D {
        self.delay
    }

    /// How often an upload is attempted at most.
    pub closed spec fn attempts(&self) -> nat {
        self.attempts as nat
    }

    /// Wraps `inner`. An upload is tried again at most `max_retries` times,
    /// so with 0 the backend acts as `inner` does; `delay` is what passes
    /// between two attempts.
    pub fn new(inner: InnerSyncBackend, max_retries: usize, delay: D) -> (backend: Self)
        requires
            max_retries < usize::MAX,
        ensures
            backend.inner() == inner,
            backend.delay() == delay,
            backend.attempts() == max_retries + 1,
    {
        RetryBackend { inner, delay, attempts: max_retries + 1 }
    }

}

impl<InnerSyncBackend: SyncBackend, D: Delay> SyncBackend for RetryBackend<InnerSyncBackend, D> {
    /// A retried upload with all attempts left, with some number of calls;
    /// the number of attempts stays.
    open spec fn upload_spec(
        &self,
        data: UploadInfoView,
        result: Result<UploadResponse, Error>,
        after: &Self,
    ) -> bool {
        &&& after.attempts() == self.attempts()
        &&& exists|calls: nat| #[trigger]
            retry_run(
                self.inner(),
                self.delay(),
                data,
                self.attempts(),
                true,
                result,
                after.inner(),
                after.delay(),
                calls,
            )
    }

    fn upload(&mut self, data: UploadInfo) -> (result: Result<UploadResponse, Error>) {
        let mut index: usize = 0;
        let mut first = true;
        while index < self.attempts
            invariant
                index <= self.attempts,
                first == (index == 0),
                self.attempts == old(self).attempts,
                forall|
                    res: Result<UploadResponse, Error>,
                    inner_end: InnerSyncBackend,
                    delay_end: D,
                    calls: nat,
                | #[trigger]
                    retry_run(
                        self.inner,
                        self.delay,
                        data@,
                        (self.attempts - index) as nat,
                        first,
                        res,
                        inner_end,
                        delay_end,
                        calls,
                    ) ==> retry_run(
                        old(self).inner,
                        old(self).delay,
                        data@,
                        old(self).attempts as nat,
                        true,
                        res,
                        inner_end,
                        delay_end,
                        (calls + index) as nat,
                    ),
            decreases self.attempts - index,
        {
            let ghost inner_before = self.inner;
            let ghost delay_before = self.delay;
            let ghost was_first = first;
            let ghost left = (self.attempts - index) as nat;
            if !first {
                self.delay.wait();
            }
            let answer = self.inner.upload(data.duplicate());
            let limited = match &answer {
                Err(Error::RateLimited) => true,
                _ => false,
            };
            if !limited {
                proof {
                    lemma_retry_attempt(
                        inner_before,
                        delay_before,
                        data@,
                        left,
                        was_first,
                        answer,
                        self.inner,
                        self.delay,
                        1,
                        self.delay,
                        answer,
                        self.inner,
                    );
                    assert(retry_run(
                        old(self).inner(),
                        old(self).delay(),
                        data@,
                        old(self).attempts(),
                        true,
                        answer,
                        self.inner(),
                        self.delay(),
                        (1 + index) as nat,
                    ));
                }
                return answer;
            }
            let ghost done = index as nat;
            index += 1;
            first = false;
            assert forall|
                res: Result<UploadResponse, Error>,
                inner_end: InnerSyncBackend,
                delay_end: D,
                calls: nat,
            | #[trigger]
                retry_run(
                    self.inner,
                    self.delay,
                    data@,
                    (self.attempts - index) as nat,
                    first,
                    res,
                    inner_end,
                    delay_end,
                    calls,
                ) implies retry_run(
                old(self).inner,
                old(self).delay,
                data@,
                old(self).attempts as nat,
                true,
                res,
                inner_end,
                delay_end,
                (calls + index) as nat,
            ) by {
                lemma_retry_attempt(
                    inner_before,
                    delay_before,
                    data@,
                    left,
                    was_first,
                    res,
                    inner_end,
                    delay_end,
                    (calls + 1) as nat,
                    self.delay,
                    answer,
                    self.inner,
                );
                assert((calls + 1) + done == calls + index);
            }
        }
        let result = Err(Error::RateLimited);
        proof {
            assert(retry_run(
                self.inner,
                self.delay,
                data@,
                (self.attempts - index) as nat,
                first,
                result,
                self.inner,
                self.delay,
                0,
            ));
            assert(retry_run(
                old(self).inner(),
                old(self).delay(),
                data@,
                old(self).attempts(),
                true,
                result,
                self.inner(),
                self.delay(),
                (0 + index) as nat,
            ));
        }
        result
    }
}

} // verus!
