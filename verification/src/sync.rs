//! Change detection: which inputs of a pass need an upload, given the
//! manifest that the last pass left.

use vstd::prelude::*;
use crate::catalog::{lemma_altered_byte_changes_hash, spec_content_hash};
use crate::data::{AssetId, InputManifest, SyncInput};
use crate::sync_backend::{Error, SyncBackend, UploadInfo, UploadInfoView, UploadResponse};
use crate::text::same_text;

verus! {

/// What the manifest remembers of the asset with the name `name`.
#[derive(Debug)]
pub struct ManifestRecord {
    pub name: String,
    pub entry: InputManifest,
}

/// The outcome of the last pass, asset by asset. Of two records with one
/// name the later counts.
#[derive(Debug)]
pub struct Manifest {
    pub inputs: Vec<ManifestRecord>,
}

/// The entry that `records` hold for `name`, if any.
pub open spec fn lookup(records: Seq<ManifestRecord>, name: Seq<char>) -> Option<InputManifest>
    decreases records.len(),
{
    if records.len() == 0 {
        None
    } else if records.last().name@ == name {
        Some(records.last().entry)
    } else {
        lookup(records.drop_last(), name)
    }
}

/// The input needs no upload: the manifest has an entry for its name, and
/// the input is unchanged against it.
pub open spec fn is_unchanged(input: SyncInput, records: Seq<ManifestRecord>) -> bool {
    match lookup(records, input.name.text@) {
        Some(entry) => input.spec_is_unchanged(entry),
        None => false,
    }
}

/// The input after change detection: an unchanged input carries the
/// identifier of its entry forward, a changed one has none until it is
/// uploaded.
pub open spec fn carried(input: SyncInput, records: Seq<ManifestRecord>) -> SyncInput {
    SyncInput {
        id: if is_unchanged(input, records) {
            Some(lookup(records, input.name.text@)->0.id)
        } else {
            None
        },
        ..input
    }
}

/// The indices of the inputs that need an upload, ascending.
pub open spec fn changed_indices(inputs: Seq<SyncInput>, records: Seq<ManifestRecord>) -> Seq<
    usize,
>
    decreases inputs.len(),
{
    if inputs.len() == 0 {
        Seq::empty()
    } else {
        let front = changed_indices(inputs.drop_last(), records);
        if is_unchanged(inputs.last(), records) {
            front
        } else {
            front.push((inputs.len() - 1) as usize)
        }
    }
}

/// The records that a pass leaves: one for every input that has an
/// identifier, with the input's hash and packability.
pub open spec fn records_of(inputs: Seq<SyncInput>) -> Seq<ManifestRecord>
    decreases inputs.len(),
{
    if inputs.len() == 0 {
        Seq::empty()
    } else {
        let front = records_of(inputs.drop_last());
        match inputs.last().id {
            Some(id) => front.push(
                ManifestRecord {
                    name: inputs.last().name.text,
                    entry: InputManifest {
                        hash: inputs.last().hash,
                        packable: inputs.last().config.packable,
                        id,
                    },
                },
            ),
            None => front,
        }
    }
}

/// The records that a pass leaves where the manifest was `old`: for every
/// input that has an identifier its record as in `records_of`, and for
/// every input that has none the entry that `old` holds for its name, if it
/// holds one, untouched.
pub open spec fn records_after(old: Seq<ManifestRecord>, inputs: Seq<SyncInput>) -> Seq<
    ManifestRecord,
>
    decreases inputs.len(),
{
    if inputs.len() == 0 {
        Seq::empty()
    } else {
        let front = records_after(old, inputs.drop_last());
        match inputs.last().id {
            Some(id) => front.push(
                ManifestRecord {
                    name: inputs.last().name.text,
                    entry: InputManifest {
                        hash: inputs.last().hash,
                        packable: inputs.last().config.packable,
                        id,
                    },
                },
            ),
            None => match lookup(old, inputs.last().name.text@) {
                Some(entry) => front.push(ManifestRecord { name: inputs.last().name.text, entry }),
                None => front,
            },
        }
    }
}

impl Manifest {
    /// The manifest of a project that was never synchronised.
    pub fn new() -> (manifest: Manifest)
        ensures
            manifest.inputs@ == Seq::<ManifestRecord>::empty(),
    {
        Manifest { inputs: Vec::new() }
    }

    /// The entry for `name`, if the manifest has one.
    pub fn get(&self, name: &str) -> (entry: Option<&InputManifest>)
        ensures
            match entry {
                Some(entry) => lookup(self.inputs@, name@) == Some(*entry),
                None => lookup(self.inputs@, name@) is None,
            },
    {
        let mut i: usize = self.inputs.len();
        assert(self.inputs@.take(i as int) =~= self.inputs@);
        while i > 0
            invariant
                i <= self.inputs.len(),
                lookup(self.inputs@, name@) == lookup(self.inputs@.take(i as int), name@),
            decreases i,
        {
            assert(self.inputs@.take(i as int).drop_last() =~= self.inputs@.take(i - 1));
            assert(self.inputs@.take(i as int).last() == self.inputs@[i - 1]);
            i -= 1;
            if same_text(self.inputs[i].name.as_str(), name) {
                return Some(&self.inputs[i].entry);
            }
        }
        None
    }

    /// The manifest that a pass leaves for `inputs` where this manifest was
    /// read at its start. An input whose upload failed keeps the entry that
    /// it had.
    pub fn after_pass(&self, inputs: &Vec<SyncInput>) -> (manifest: Manifest)
        ensures
            manifest.inputs@ == records_after(self.inputs@, inputs@),
    {
        let mut records: Vec<ManifestRecord> = Vec::new();
        let mut i: usize = 0;
        assert(inputs@.take(0) =~= Seq::<SyncInput>::empty());
        while i < inputs.len()
            invariant
                i <= inputs.len(),
                records@ == records_after(self.inputs@, inputs@.take(i as int)),
            decreases inputs.len() - i,
        {
            assert(inputs@.take(i + 1).drop_last() =~= inputs@.take(i as int));
            assert(inputs@.take(i + 1).last() == inputs@[i as int]);
            match &inputs[i].id {
                Some(id) => {
                    records.push(
                        ManifestRecord {
                            name: inputs[i].name.text.clone(),
                            entry: InputManifest {
                                hash: inputs[i].hash.clone(),
                                packable: inputs[i].config.packable,
                                id: id.duplicate(),
                            },
                        },
                    );
                },
                None => match self.get(inputs[i].name.text.as_str()) {
                    Some(entry) => {
                        records.push(
                            ManifestRecord {
                                name: inputs[i].name.text.clone(),
                                entry: InputManifest {
                                    hash: entry.hash.clone(),
                                    packable: entry.packable,
                                    id: entry.id.duplicate(),
                                },
                            },
                        );
                    },
                    None => {},
                },
            }
            i += 1;
        }
        assert(inputs@.take(inputs@.len() as int) =~= inputs@);
        Manifest { inputs: records }
    }

    /// The manifest that a pass leaves for `inputs`.
    pub fn from_inputs(inputs: &Vec<SyncInput>) -> (manifest: Manifest)
        ensures
            manifest.inputs@ == records_of(inputs@),
    {
        let mut records: Vec<ManifestRecord> = Vec::new();
        let mut i: usize = 0;
        assert(inputs@.take(0) =~= Seq::<SyncInput>::empty());
        while i < inputs.len()
            invariant
                i <= inputs.len(),
                records@ == records_of(inputs@.take(i as int)),
            decreases inputs.len() - i,
        {
            assert(inputs@.take(i + 1).drop_last() =~= inputs@.take(i as int));
            assert(inputs@.take(i + 1).last() == inputs@[i as int]);
            match &inputs[i].id {
                Some(id) => {
                    records.push(
                        ManifestRecord {
                            name: inputs[i].name.text.clone(),
                            entry: InputManifest {
                                hash: inputs[i].hash.clone(),
                                packable: inputs[i].config.packable,
                                id: id.duplicate(),
                            },
                        },
                    );
                },
                None => {},
            }
            i += 1;
        }
        assert(inputs@.take(inputs@.len() as int) =~= inputs@);
        Manifest { inputs: records }
    }
}

/// Classifies every input against the manifest. Unchanged inputs take the
/// identifier of their entry; changed inputs lose theirs, and their
/// indices are handed back in ascending order.
pub fn detect_changes(inputs: &mut Vec<SyncInput>, manifest: &Manifest) -> (changed: Vec<usize>)
    ensures
        final(inputs)@.len() == old(inputs)@.len(),
        forall|i: int|
            0 <= i < old(inputs)@.len() ==> (#[trigger] final(inputs)@[i]) == carried(
                old(inputs)@[i],
                manifest.inputs@,
            ),
        changed@ == changed_indices(old(inputs)@, manifest.inputs@),
{
    let mut changed: Vec<usize> = Vec::new();
    let mut i: usize = 0;
    assert(old(inputs)@.take(0) =~= Seq::<SyncInput>::empty());
    while i < inputs.len()
        invariant
            i <= inputs.len(),
            inputs@.len() == old(inputs)@.len(),
            forall|k: int|
                0 <= k < i ==> (#[trigger] inputs@[k]) == carried(old(inputs)@[k], manifest.inputs@),
            forall|k: int| i <= k < inputs@.len() ==> (#[trigger] inputs@[k]) == old(inputs)@[k],
            changed@ == changed_indices(old(inputs)@.take(i as int), manifest.inputs@),
        decreases inputs.len() - i,
    {
        assert(old(inputs)@.take(i + 1).drop_last() =~= old(inputs)@.take(i as int));
        assert(old(inputs)@.take(i + 1).last() == old(inputs)@[i as int]);
        let carried_id = match manifest.get(inputs[i].name.text.as_str()) {
            Some(entry) => if inputs[i].is_unchanged_since_last_sync(entry) {
                Some(entry.id.duplicate())
            } else {
                None
            },
            None => None,
        };
        if carried_id.is_none() {
            changed.push(i);
        }
        inputs[i].id = carried_id;
        i += 1;
    }
    assert(old(inputs)@.take(old(inputs)@.len() as int) =~= old(inputs)@);
    changed
}

/// An input needs an upload exactly if it is not unchanged against the
/// manifest.
pub proof fn lemma_changed_members(
    inputs: Seq<SyncInput>,
    records: Seq<ManifestRecord>,
    index: usize,
)
    requires
        inputs.len() <= usize::MAX,
    ensures
        changed_indices(inputs, records).contains(index) <==> index < inputs.len() && !is_unchanged(
            inputs[index as int],
            records,
        ),
    decreases inputs.len(),
{
    if inputs.len() > 0 {
        let front = inputs.drop_last();
        let before = changed_indices(front, records);
        lemma_changed_members(front, records, index);
        let all = changed_indices(inputs, records);
        if is_unchanged(inputs.last(), records) {
            assert(all == before);
        } else {
            let last = (inputs.len() - 1) as usize;
            assert(all == before.push(last));
            assert(all[all.len() - 1] == last);
            if before.contains(index) {
                let k = choose|k: int| 0 <= k < before.len() && before[k] == index;
                assert(all[k] == index);
            }
            if all.contains(index) && index != last {
                let k = choose|k: int| 0 <= k < all.len() && all[k] == index;
                assert(before[k] == index);
            }
        }
    }
}

/// An input whose contents hash to another value than the manifest
/// remembers, or that the manifest does not know, is classified as changed.
pub proof fn lemma_other_hash_is_changed(
    inputs: Seq<SyncInput>,
    records: Seq<ManifestRecord>,
    index: usize,
)
    requires
        inputs.len() <= usize::MAX,
        index < inputs.len(),
        lookup(records, inputs[index as int].name.text@) matches Some(entry) ==> entry.hash@
            != inputs[index as int].hash@,
    ensures
        changed_indices(inputs, records).contains(index),
{
    lemma_changed_members(inputs, records, index);
}

/// Altering one byte of an input's contents forces an upload: where the
/// manifest remembers the digest of the contents `before`, and the input
/// holds those contents with one byte altered under their own digest, the
/// input is classified as changed.
pub proof fn lemma_altered_contents_are_changed(
    inputs: Seq<SyncInput>,
    records: Seq<ManifestRecord>,
    index: usize,
    before: Seq<u8>,
    at: int,
)
    requires
        inputs.len() <= usize::MAX,
        index < inputs.len(),
        0 <= at < before.len(),
        inputs[index as int].contents@ == before.update(at, inputs[index as int].contents@[at]),
        inputs[index as int].contents@[at] != before[at],
        inputs[index as int].hash@ == spec_content_hash(inputs[index as int].contents@),
        lookup(records, inputs[index as int].name.text@) matches Some(entry) ==> entry.hash@
            == spec_content_hash(before),
    ensures
        changed_indices(inputs, records).contains(index),
{
    lemma_altered_byte_changes_hash(before, at, inputs[index as int].contents@[at]);
    lemma_other_hash_is_changed(inputs, records, index);
}

/// An input that is packable where the manifest remembers that it was not,
/// or the other way round, is classified as changed, whatever its hash.
pub proof fn lemma_other_packability_is_changed(
    inputs: Seq<SyncInput>,
    records: Seq<ManifestRecord>,
    index: usize,
)
    requires
        inputs.len() <= usize::MAX,
        index < inputs.len(),
        lookup(records, inputs[index as int].name.text@) matches Some(entry) && entry.packable
            != inputs[index as int].config.packable,
    ensures
        changed_indices(inputs, records).contains(index),
{
    lemma_changed_members(inputs, records, index);
}

/// No two inputs have one name.
pub open spec fn names_unique(inputs: Seq<SyncInput>) -> bool {
    forall|i: int, j: int|
        0 <= i < j < inputs.len() ==> inputs[i].name.text@ != inputs[j].name.text@
}

/// After a pass in which every input got an identifier, the manifest that
/// the pass leaves holds every input as it is.
pub proof fn lemma_own_record(inputs: Seq<SyncInput>, index: int)
    requires
        names_unique(inputs),
        forall|i: int| 0 <= i < inputs.len() ==> (#[trigger] inputs[i]).id is Some,
        0 <= index < inputs.len(),
    ensures
        lookup(records_of(inputs), inputs[index].name.text@) == Some(
            InputManifest {
                hash: inputs[index].hash,
                packable: inputs[index].config.packable,
                id: inputs[index].id->0,
            },
        ),
    decreases inputs.len(),
{
    let front = inputs.drop_last();
    let records = records_of(inputs);
    assert(inputs[inputs.len() - 1].id is Some);
    assert(records.drop_last() =~= records_of(front));
    if index < inputs.len() - 1 {
        assert(names_unique(front)) by {
            assert forall|i: int, j: int| 0 <= i < j < front.len() implies front[i].name.text@
                != front[j].name.text@ by {
                assert(inputs[i].name.text@ != inputs[j].name.text@);
            }
        }
        assert forall|i: int| 0 <= i < front.len() implies (#[trigger] front[i]).id is Some by {
            assert(inputs[i].id is Some);
        }
        lemma_own_record(front, index);
        assert(inputs[index].name.text@ != inputs[inputs.len() - 1].name.text@);
    }
}

/// Change detection is idempotent: against the manifest that a pass left
/// in which every input got an identifier, and with nothing changed since,
/// no input needs an upload.
pub proof fn lemma_synced_inputs_are_unchanged(inputs: Seq<SyncInput>)
    requires
        names_unique(inputs),
        forall|i: int| 0 <= i < inputs.len() ==> (#[trigger] inputs[i]).id is Some,
    ensures
        changed_indices(inputs, records_of(inputs)) == Seq::<usize>::empty(),
{
    lemma_no_changes_in_front(inputs, inputs.len() as int);
    assert(inputs.take(inputs.len() as int) =~= inputs);
}

proof fn lemma_no_changes_in_front(inputs: Seq<SyncInput>, upto: int)
    requires
        names_unique(inputs),
        forall|i: int| 0 <= i < inputs.len() ==> (#[trigger] inputs[i]).id is Some,
        0 <= upto <= inputs.len(),
    ensures
        changed_indices(inputs.take(upto), records_of(inputs)) == Seq::<usize>::empty(),
    decreases upto,
{
    if upto > 0 {
        lemma_no_changes_in_front(inputs, upto - 1);
        assert(inputs.take(upto).drop_last() =~= inputs.take(upto - 1));
        assert(inputs.take(upto).last() == inputs[upto - 1]);
        lemma_own_record(inputs, upto - 1);
    }
}

/// An upload that failed, by the index of its input.
#[derive(Debug)]
pub struct UploadFailure {
    pub input: usize,
    pub error: Error,
}

/// How the uploads of a pass ended: the failures in the order in which
/// they came, and whether the last of them ended the pass.
#[derive(Debug)]
pub struct DispatchReport {
    pub failures: Vec<UploadFailure>,
    pub halted: bool,
}

/// What is uploaded for an input: its name, its contents and their hash.
pub open spec fn upload_of(input: SyncInput) -> UploadInfoView {
    UploadInfoView { name: input.name.text@, contents: input.contents@, hash: input.hash@ }
}

/// The input with the identifier that its upload gave.
pub open spec fn uploaded(input: SyncInput, id: AssetId) -> SyncInput {
    SyncInput { id: Some(id), ..input }
}

/// One call of the backend for the input `input`.
pub open spec fn dispatch_attempt<B: SyncBackend>(
    backend: B,
    input: SyncInput,
    answer: Result<UploadResponse, Error>,
    backend_mid: B,
) -> bool {
    backend.upload_spec(upload_of(input), answer, &backend_mid)
}

/// The uploads of the inputs with the indices `changed`, one at a time and
/// in that order. Each input is uploaded with one call of the backend. A
/// success gives the input its identifier. A failure is recorded and leaves
/// the input as it is; where it ends the pass, nothing further is uploaded.
pub open spec fn dispatch_run<B: SyncBackend>(
    backend: B,
    inputs: Seq<SyncInput>,
    changed: Seq<usize>,
    backend_end: B,
    inputs_end: Seq<SyncInput>,
    failures: Seq<UploadFailure>,
    halted: bool,
) -> bool
    decreases changed.len(),
{
    if changed.len() == 0 {
        backend_end == backend && inputs_end == inputs && failures.len() == 0 && !halted
    } else {
        exists|answer: Result<UploadResponse, Error>, backend_mid: B|
            {
                &&& #[trigger] dispatch_attempt(
                    backend,
                    inputs[changed[0] as int],
                    answer,
                    backend_mid,
                )
                &&& match answer {
                    Ok(response) => dispatch_run(
                        backend_mid,
                        inputs.update(
                            changed[0] as int,
                            uploaded(inputs[changed[0] as int], response.id),
                        ),
                        changed.drop_first(),
                        backend_end,
                        inputs_end,
                        failures,
                        halted,
                    ),
                    Err(error) => {
                        &&& failures.len() > 0
                        &&& failures[0] == (UploadFailure { input: changed[0], error })
                        &&& if error.spec_halts_pass() {
                            &&& halted
                            &&& failures.len() == 1
                            &&& backend_end == backend_mid
                            &&& inputs_end == inputs
                        } else {
                            dispatch_run(
                                backend_mid,
                                inputs,
                                changed.drop_first(),
                                backend_end,
                                inputs_end,
                                failures.drop_first(),
                                halted,
                            )
                        }
                    },
                }
            }
    }
}

/// The uploads from one input on end as they do after one call of the
/// backend and what follows it.
pub proof fn lemma_dispatch_attempt<B: SyncBackend>(
    backend: B,
    inputs: Seq<SyncInput>,
    changed: Seq<usize>,
    backend_end: B,
    inputs_end: Seq<SyncInput>,
    failures: Seq<UploadFailure>,
    halted: bool,
    answer: Result<UploadResponse, Error>,
    backend_mid: B,
)
    requires
        changed.len() > 0,
        dispatch_attempt(backend, inputs[changed[0] as int], answer, backend_mid),
        match answer {
            Ok(response) => dispatch_run(
                backend_mid,
                inputs.update(changed[0] as int, uploaded(inputs[changed[0] as int], response.id)),
                changed.drop_first(),
                backend_end,
                inputs_end,
                failures,
                halted,
            ),
            Err(error) => {
                &&& failures.len() > 0
                &&& failures[0] == (UploadFailure { input: changed[0], error })
                &&& if error.spec_halts_pass() {
                    &&& halted
                    &&& failures.len() == 1
                    &&& backend_end == backend_mid
                    &&& inputs_end == inputs
                } else {
                    dispatch_run(
                        backend_mid,
                        inputs,
                        changed.drop_first(),
                        backend_end,
                        inputs_end,
                        failures.drop_first(),
                        halted,
                    )
                }
            },
        },
    ensures
        dispatch_run(backend, inputs, changed, backend_end, inputs_end, failures, halted),
{
}

/// Uploads the inputs with the indices `changed`, one at a time and in
/// that order, and gives each input that was uploaded its identifier.
pub fn dispatch_uploads<B: SyncBackend>(
    backend: &mut B,
    inputs: &mut Vec<SyncInput>,
    changed: &Vec<usize>,
) -> (report: DispatchReport)
    requires
        forall|k: int| 0 <= k < changed@.len() ==> (#[trigger] changed@[k]) < old(inputs)@.len(),
    ensures
        final(inputs)@.len() == old(inputs)@.len(),
        dispatch_run(
            *old(backend),
            old(inputs)@,
            changed@,
            *final(backend),
            final(inputs)@,
            report.failures@,
            report.halted,
        ),
{
    let mut failures: Vec<UploadFailure> = Vec::new();
    let mut k: usize = 0;
    assert(changed@.skip(0) =~= changed@);
    assert(failures@ + Seq::<UploadFailure>::empty() =~= failures@);
    while k < changed.len()
        invariant
            k <= changed.len(),
            inputs@.len() == old(inputs)@.len(),
            forall|j: int| 0 <= j < changed@.len() ==> (#[trigger] changed@[j]) < inputs@.len(),
            forall|backend_end: B, inputs_end: Seq<SyncInput>, rest: Seq<UploadFailure>, halted: bool|
                #[trigger] dispatch_run(
                    *backend,
                    inputs@,
                    changed@.skip(k as int),
                    backend_end,
                    inputs_end,
                    rest,
                    halted,
                ) ==> dispatch_run(
                    *old(backend),
                    old(inputs)@,
                    changed@,
                    backend_end,
                    inputs_end,
                    failures@ + rest,
                    halted,
                ),
        decreases changed.len() - k,
    {
        let index = changed[k];
        let ghost backend_before = *backend;
        let ghost inputs_before = inputs@;
        let ghost failures_before = failures@;
        let ghost left = changed@.skip(k as int);
        proof {
            assert(left[0] == index);
            assert(left.drop_first() =~= changed@.skip(k + 1));
        }
        let info = UploadInfo {
            name: inputs[index].name.text.clone(),
            contents: inputs[index].contents.clone(),
            hash: inputs[index].hash.clone(),
        };
        assert(info.contents@ =~= inputs@[index as int].contents@);
        assert(info@ == upload_of(inputs@[index as int]));
        let answer = backend.upload(info);
        assert(dispatch_attempt(backend_before, inputs_before[index as int], answer, *backend));
        match answer {
            Ok(response) => {
                inputs[index].id = Some(response.id);
                assert(inputs@ =~= inputs_before.update(
                    index as int,
                    uploaded(inputs_before[index as int], response.id),
                ));
                assert forall|
                    backend_end: B,
                    inputs_end: Seq<SyncInput>,
                    rest: Seq<UploadFailure>,
                    halted: bool,
                | #[trigger]
                    dispatch_run(
                        *backend,
                        inputs@,
                        changed@.skip(k + 1),
                        backend_end,
                        inputs_end,
                        rest,
                        halted,
                    ) implies dispatch_run(
                    *old(backend),
                    old(inputs)@,
                    changed@,
                    backend_end,
                    inputs_end,
                    failures@ + rest,
                    halted,
                ) by {
                    lemma_dispatch_attempt(
                        backend_before,
                        inputs_before,
                        left,
                        backend_end,
                        inputs_end,
                        rest,
                        halted,
                        answer,
                        *backend,
                    );
                }
            },
            Err(error) => {
                let halts = error.halts_pass();
                failures.push(UploadFailure { input: index, error });
                if halts {
                    proof {
                        let only = seq![UploadFailure { input: index, error }];
                        lemma_dispatch_attempt(
                            backend_before,
                            inputs_before,
                            left,
                            *backend,
                            inputs@,
                            only,
                            true,
                            answer,
                            *backend,
                        );
                        assert(failures@ =~= failures_before + only);
                    }
                    return DispatchReport { failures, halted: true };
                }
                assert forall|
                    backend_end: B,
                    inputs_end: Seq<SyncInput>,
                    rest: Seq<UploadFailure>,
                    halted: bool,
                | #[trigger]
                    dispatch_run(
                        *backend,
                        inputs@,
                        changed@.skip(k + 1),
                        backend_end,
                        inputs_end,
                        rest,
                        halted,
                    ) implies dispatch_run(
                    *old(backend),
                    old(inputs)@,
                    changed@,
                    backend_end,
                    inputs_end,
                    failures@ + rest,
                    halted,
                ) by {
                    let longer = seq![UploadFailure { input: index, error }] + rest;
                    assert(longer.drop_first() =~= rest);
                    lemma_dispatch_attempt(
                        backend_before,
                        inputs_before,
                        left,
                        backend_end,
                        inputs_end,
                        longer,
                        halted,
                        answer,
                        *backend,
                    );
                    assert(failures@ + rest =~= failures_before + longer);
                }
            },
        }
        k += 1;
    }
    proof {
        let none = Seq::<UploadFailure>::empty();
        assert(dispatch_run(
            *backend,
            inputs@,
            changed@.skip(k as int),
            *backend,
            inputs@,
            none,
            false,
        ));
        assert(failures@ + none =~= failures@);
    }
    DispatchReport { failures, halted: false }
}

} // verus!
