//! The decision core of the write-through cache: building upload parts,
//! deriving file paths, resolving target stores, planning the transfers of an
//! upload, and aggregating their outcomes fail-fast.
//!
//! The cache stages immutable data files on a local store and promotes them
//! to named remote stores. All I/O — opening readers and writers, copying
//! bytes, waiting on concurrent transfers — happens in the unverified shell
//! around this library; the shell executes the plan produced here and hands
//! back one outcome per transfer.
use vstd::prelude::*;

verus! {

use crate::error::StorageError;

/// Buffer size, in bytes, for the streaming writer of a remote transfer.
pub const DEFAULT_WRITE_BUFFER_SIZE: u64 = 5 * 1024 * 1024;

/// Identifier of a region, a logical partition of the engine's keyspace.
#[derive(Debug, Clone, Copy, PartialEq, Eq, Hash, Structural)]
pub struct RegionId {
    pub table_id: u32,
    pub region_number: u32,
}

/// What the engine knows about a region; the part writer only needs its
/// identifier.
#[derive(Debug, Clone, PartialEq, Eq)]
pub struct RegionMetadata {
    pub region_id: RegionId,
}

/// Inclusive timestamps of the oldest and newest row of a file, in
/// milliseconds.
#[derive(Debug, Clone, Copy, PartialEq, Eq, Structural)]
pub struct FileTimeRange {
    pub min_ts: i64,
    pub max_ts: i64,
}

/// Metadata of one immutable data file produced by a flush or compaction.
#[derive(Debug, Clone, PartialEq, Eq)]
pub struct FileMeta {
    pub region_id: RegionId,
    /// Unique identifier of the file within its region.
    pub file_id: String,
    /// Time range of the rows of the file.
    pub time_range: FileTimeRange,
    /// Storage level of the file.
    pub level: u8,
    /// Size of the file in bytes.
    pub file_size: u64,
}

/// The canonical path of a data file: `region_dir/file_id.parquet`.
pub open spec fn sst_path_of(region_dir: Seq<char>, file_id: Seq<char>) -> Seq<char> {
    region_dir + "/"@ + file_id + ".parquet"@
}

/// Derives the canonical path of a data file under its region directory.
pub fn sst_file_path(region_dir: &str, file_id: &str) -> (r: String)
    ensures
        r@ == sst_path_of(region_dir@, file_id@),
{
    region_dir.to_owned().concat("/").concat(file_id).concat(".parquet")
}

/// Immutable, finalized group of files to promote together. Built by
/// `UploadPartWriter::finish` and consumed once by an upload.
#[derive(Debug, Clone, PartialEq, Eq)]
pub struct UploadPart {
    /// Region the files belong to.
    pub region_id: RegionId,
    /// Directory of the region data.
    pub region_dir: String,
    /// Meta of the files created.
    pub file_metas: Vec<FileMeta>,
    /// Name of the target store; `None` means the part is not promoted.
    pub storage: Option<String>,
}

/// A batch request to promote one or more finalized parts.
#[derive(Debug, Clone, PartialEq, Eq)]
pub struct Upload {
    /// Parts to upload.
    pub parts: Vec<UploadPart>,
}

/// Mutable accumulator for the files of one region destined for one store.
pub struct UploadPartWriter {
    /// Metadata of the region.
    pub metadata: RegionMetadata,
    /// Directory of the region.
    pub region_dir: String,
    /// Meta of the files created.
    pub file_metas: Vec<FileMeta>,
    /// Target storage of the files.
    pub storage: Option<String>,
}

impl UploadPartWriter {
    /// Creates a new writer for the region.
    pub fn new(metadata: RegionMetadata) -> (w: UploadPartWriter)
        ensures
            w.metadata == metadata,
            w.region_dir@ == Seq::<char>::empty(),
            w.file_metas@ == Seq::<FileMeta>::empty(),
            w.storage is None,
    {
        UploadPartWriter {
            metadata,
            region_dir: String::new(),
            file_metas: Vec::new(),
            storage: None,
        }
    }

    /// Sets the region directory for the part.
    #[must_use]
    pub fn with_region_dir(self, region_dir: String) -> (w: UploadPartWriter)
        ensures
            w.metadata == self.metadata,
            w.region_dir == region_dir,
            w.file_metas == self.file_metas,
            w.storage == self.storage,
    {
        UploadPartWriter {
            metadata: self.metadata,
            region_dir,
            file_metas: self.file_metas,
            storage: self.storage,
        }
    }

    /// Sets the target store for the part; `None` keeps the files local.
    #[must_use]
    pub fn with_storage(self, storage: Option<String>) -> (w: UploadPartWriter)
        ensures
            w.metadata == self.metadata,
            w.region_dir == self.region_dir,
            w.file_metas == self.file_metas,
            w.storage == storage,
    {
        UploadPartWriter {
            metadata: self.metadata,
            region_dir: self.region_dir,
            file_metas: self.file_metas,
            storage,
        }
    }

    /// Reserves capacity for `additional` further files.
    pub fn reserve_capacity(&mut self, additional: usize)
        ensures
            final(self).metadata == old(self).metadata,
            final(self).region_dir == old(self).region_dir,
            final(self).storage == old(self).storage,
            final(self).file_metas@ == old(self).file_metas@,
    {
        self.file_metas.reserve(additional);
    }

    /// Adds one file to the part.
    pub fn add_sst(&mut self, file_meta: FileMeta)
        ensures
            final(self).metadata == old(self).metadata,
            final(self).region_dir == old(self).region_dir,
            final(self).storage == old(self).storage,
            final(self).file_metas@ == old(self).file_metas@.push(file_meta),
    {
        self.file_metas.push(file_meta);
    }

    /// Adds several files to the part, in order.
    pub fn extend_ssts(&mut self, file_metas: Vec<FileMeta>)
        ensures
            final(self).metadata == old(self).metadata,
            final(self).region_dir == old(self).region_dir,
            final(self).storage == old(self).storage,
            final(self).file_metas@ == old(self).file_metas@ + file_metas@,
    {
        let mut file_metas = file_metas;
        self.file_metas.append(&mut file_metas);
    }

    /// The files recorded so far.
    pub fn written_file_metas(&self) -> (r: &[FileMeta])
        ensures
            r@ == self.file_metas@,
    {
        self.file_metas.as_slice()
    }

    /// Finishes the writer and builds the immutable part.
    pub fn finish(self) -> (part: UploadPart)
        ensures
            part.region_id == self.metadata.region_id,
            part.region_dir == self.region_dir,
            part.file_metas == self.file_metas,
            part.storage == self.storage,
    {
        UploadPart {
            region_id: self.metadata.region_id,
            region_dir: self.region_dir,
            file_metas: self.file_metas,
            storage: self.storage,
        }
    }
}

/// A registry of the remote stores known by name. The store handles live in
/// the I/O shell; the library resolves names against this registry.
pub struct StoreRegistry {
    pub names: Vec<String>,
}

impl StoreRegistry {
    /// The names registered so far.
    pub open spec fn names_spec(&self) -> Seq<Seq<char>> {
        Seq::new(self.names@.len(), |i: int| self.names@[i]@)
    }

    /// True when a store of that name is registered.
    pub open spec fn has(&self, name: Seq<char>) -> bool {
        self.names_spec().contains(name)
    }

    /// Creates an empty registry.
    pub fn new() -> (r: StoreRegistry)
        ensures
            r.names_spec() == Seq::<Seq<char>>::empty(),
    {
        let r = StoreRegistry { names: Vec::new() };
        proof {
            assert(r.names_spec() =~= Seq::<Seq<char>>::empty());
        }
        r
    }

    /// Registers a store name.
    pub fn register(&mut self, name: String)
        ensures
            final(self).names_spec() == old(self).names_spec().push(name@),
    {
        self.names.push(name);
        proof {
            assert(self.names_spec() =~= old(self).names_spec().push(name@));
        }
    }

    /// Looks a name up.
    pub fn contains(&self, name: &String) -> (r: bool)
        ensures
            r == self.has(name@),
    {
        let mut i: usize = 0;
        while i < self.names.len()
            invariant
                i <= self.names@.len(),
                forall|j: int| 0 <= j < i ==> self.names_spec()[j] != name@,
            decreases self.names@.len() - i,
        {
            if self.names[i].eq(name) {
                proof {
                    assert(self.names_spec()[i as int] == name@);
                }
                return true;
            }
            i = i + 1;
        }
        proof {
            assert forall|k: int| 0 <= k < self.names_spec().len() implies self.names_spec()[k]
                != name@ by {}
        }
        false
    }
}

/// One planned transfer: copy the file at `path` on the local store to the
/// same path on the remote store named `store`.
#[derive(Debug, Clone, PartialEq, Eq)]
pub struct Transfer {
    pub store: String,
    pub path: String,
}

/// The transfers a single part asks for: one per file, all to the part's
/// store, at the canonical path.
pub open spec fn part_transfers(part: UploadPart) -> Seq<(Seq<char>, Seq<char>)> {
    if part.storage is Some {
        Seq::new(
            part.file_metas@.len(),
            |i: int|
                (
                    part.storage.unwrap()@,
                    sst_path_of(part.region_dir@, part.file_metas@[i].file_id@),
                ),
        )
    } else {
        Seq::empty()
    }
}

/// The transfers of a whole upload: those of its parts, in order. A part
/// without a target store contributes none.
pub open spec fn upload_transfers(parts: Seq<UploadPart>) -> Seq<(Seq<char>, Seq<char>)>
    decreases parts.len(),
{
    if parts.len() == 0 {
        Seq::empty()
    } else {
        part_transfers(parts[0]) + upload_transfers(parts.drop_first())
    }
}

/// True when every part of `parts` that names a target store names one that
/// `registry` knows.
pub open spec fn stores_resolvable(parts: Seq<UploadPart>, registry: &StoreRegistry) -> bool {
    forall|k: int|
        0 <= k < parts.len() ==> ((#[trigger] parts[k]).storage is Some ==> registry.has(
            parts[k].storage.unwrap()@,
        ))
}

/// The view of planned transfers.
pub open spec fn transfers_view(ts: Seq<Transfer>) -> Seq<(Seq<char>, Seq<char>)> {
    Seq::new(ts.len(), |i: int| (ts[i].store@, ts[i].path@))
}

/// Plans the transfers of an upload.
///
/// Parts without a target store are skipped entirely: they ask for no remote
/// operation and are not an error. Every named store is resolved against the
/// registry before any transfer is handed out; the first part naming an
/// unregistered store fails the whole plan with `StoreNotFound`, so no bytes
/// are copied for such an upload.
pub fn plan_upload(upload: &Upload, registry: &StoreRegistry) -> (r: Result<
    Vec<Transfer>,
    StorageError,
>)
    ensures
        stores_resolvable(upload.parts@, registry) <==> r is Ok,
        r matches Ok(ts) ==> transfers_view(ts@) == upload_transfers(upload.parts@),
        r matches Err(e) ==> (e matches StorageError::StoreNotFound { store } && exists|k: int|
            0 <= k < upload.parts@.len() && (#[trigger] upload.parts@[k]).storage is Some
                && store@ == upload.parts@[k].storage.unwrap()@ && !registry.has(store@) && (
            forall|j: int|
                0 <= j < k ==> ((#[trigger] upload.parts@[j]).storage is Some ==> registry.has(
                    upload.parts@[j].storage.unwrap()@,
                )))),
{
    let mut transfers: Vec<Transfer> = Vec::new();
    let ghost parts = upload.parts@;
    let mut k: usize = 0;
    while k < upload.parts.len()
        invariant
            k <= parts.len(),
            parts == upload.parts@,
            stores_resolvable(parts.subrange(0, k as int), registry),
            transfers_view(transfers@) =~= upload_transfers(parts.subrange(0, k as int)),
        decreases parts.len() - k,
    {
        let part = &upload.parts[k];
        let ghost prefix = parts.subrange(0, k as int);
        match &part.storage {
            Option::None => {
                proof {
                    lemma_upload_transfers_snoc(parts, k as int);
                    assert(part_transfers(parts[k as int]) =~= Seq::empty());
                    assert(transfers_view(transfers@) =~= upload_transfers(
                        parts.subrange(0, k + 1),
                    ));
                    assert(stores_resolvable(parts.subrange(0, k + 1), registry));
                }
            },
            Option::Some(storage) => {
                if !registry.contains(storage) {
                    proof {
                        assert forall|j: int|
                            0 <= j < k && (#[trigger] parts[j]).storage is Some implies registry.has(
                            parts[j].storage.unwrap()@,
                        ) by {
                            assert(stores_resolvable(parts.subrange(0, k as int), registry));
                            assert(parts.subrange(0, k as int)[j] == parts[j]);
                        }
                    }
                    return Err(StorageError::StoreNotFound { store: storage.clone() });
                }
                let ghost t0 = transfers@;
                let mut i: usize = 0;
                while i < part.file_metas.len()
                    invariant
                        i <= part.file_metas@.len(),
                        *part == parts[k as int],
                        k < parts.len(),
                        parts == upload.parts@,
                        part.storage matches Some(sname) && sname@ == storage@,
                        transfers_view(transfers@) =~= transfers_view(t0) + part_transfers(
                            *part,
                        ).subrange(0, i as int),
                    decreases part.file_metas@.len() - i,
                {
                    let path = sst_file_path(part.region_dir.as_str(), part.file_metas[i].file_id.as_str());
                    let ghost tsb = transfers@;
                    let t = Transfer { store: storage.clone(), path };
                    let ghost tg = t;
                    transfers.push(t);
                    proof {
                        let pt = part_transfers(*part);
                        assert(transfers@ == tsb.push(tg));
                        assert(transfers_view(transfers@) =~= transfers_view(tsb).push(
                            (tg.store@, tg.path@),
                        ));
                        assert(part.storage.unwrap()@ == storage@);
                        assert(pt[i as int] == (storage@, sst_path_of(
                            part.region_dir@,
                            part.file_metas@[i as int].file_id@,
                        )));
                        assert(pt.subrange(0, i + 1) =~= pt.subrange(0, i as int).push(
                            pt[i as int],
                        ));
                        assert(transfers_view(transfers@) =~= transfers_view(t0) + pt.subrange(
                            0,
                            i + 1,
                        ));
                    }
                    i = i + 1;
                }
                proof {
                    lemma_upload_transfers_snoc(parts, k as int);
                    assert(part_transfers(*part).subrange(
                        0,
                        part.file_metas@.len() as int,
                    ) =~= part_transfers(*part));
                    assert(transfers_view(transfers@) =~= upload_transfers(
                        parts.subrange(0, k + 1),
                    ));
                    assert(stores_resolvable(parts.subrange(0, k + 1), registry));
                }
            },
        }
        k = k + 1;
    }
    proof {
        assert(parts.subrange(0, parts.len() as int) =~= parts);
    }
    Ok(transfers)
}

/// Extending the planned prefix by one part appends that part's transfers.
proof fn lemma_upload_transfers_snoc(parts: Seq<UploadPart>, k: int)
    requires
        0 <= k < parts.len(),
    ensures
        upload_transfers(parts.subrange(0, k + 1)) == upload_transfers(parts.subrange(0, k))
            + part_transfers(parts[k]),
    decreases k,
{
    if k == 0 {
        assert(parts.subrange(0, 1)[0] == parts[0]);
        assert(parts.subrange(0, 1).drop_first() =~= Seq::<UploadPart>::empty());
        assert(upload_transfers(Seq::<UploadPart>::empty()) == Seq::<(
            Seq<char>,
            Seq<char>,
        )>::empty());
        assert(upload_transfers(parts.subrange(0, 1)) =~= part_transfers(parts[0]));
        assert(upload_transfers(parts.subrange(0, 0)) == Seq::<(Seq<char>, Seq<char>)>::empty());
        assert(upload_transfers(parts.subrange(0, 1)) =~= upload_transfers(parts.subrange(0, 0))
            + part_transfers(parts[0]));
    } else {
        let tail = parts.drop_first();
        lemma_upload_transfers_snoc(tail, k - 1);
        assert(parts.subrange(0, k + 1).drop_first() =~= tail.subrange(0, k));
        assert(parts.subrange(0, k).drop_first() =~= tail.subrange(0, k - 1));
        assert(upload_transfers(parts.subrange(0, k + 1)) == part_transfers(parts[0])
            + upload_transfers(tail.subrange(0, k)));
        assert(upload_transfers(parts.subrange(0, k)) == part_transfers(parts[0])
            + upload_transfers(tail.subrange(0, k - 1)));
        assert(tail.subrange(0, k)[k - 1] == parts[k]);
        assert(upload_transfers(parts.subrange(0, k + 1)) =~= upload_transfers(
            parts.subrange(0, k),
        ) + part_transfers(parts[k]));
    }
}

/// Aggregates the outcomes of the transfers of one upload, fail-fast: the
/// call succeeds only when every transfer succeeded, and otherwise reports
/// the first failure. Transfers after a failure are neither repeated nor
/// rolled back; their outcomes are simply not reported.
pub fn first_failure(results: Vec<Result<(), StorageError>>) -> (r: Result<(), StorageError>)
    ensures
        r is Ok <==> (forall|i: int| 0 <= i < results@.len() ==> (#[trigger] results@[i]) is Ok),
        r is Err ==> exists|i: int|
            0 <= i < results@.len() && r == #[trigger] results@[i] && (forall|j: int|
                0 <= j < i ==> (#[trigger] results@[j]) is Ok),
{
    let mut rest = results;
    let mut i: usize = 0;
    while i < rest.len()
        invariant
            i <= results@.len(),
            rest@ == results@,
            forall|j: int| 0 <= j < i ==> (#[trigger] results@[j]) is Ok,
        decreases results@.len() - i,
    {
        let failed = match &rest[i] {
            Result::Ok(_) => false,
            Result::Err(_) => true,
        };
        if failed {
            let e = rest.swap_remove(i);
            return e;
        }
        i = i + 1;
    }
    Ok(())
}

} // verus!
