//! The options with which a ledger store is opened.
use vstd::prelude::*;

verus! {

/// The options of a ledger store.
pub struct BlockstoreOptions {
    /// How the store is accessed.
    pub access_type: AccessType,
    /// Whether the store is opened in a recovery mode, and in which.
    pub recovery_mode: Option<BlockstoreRecoveryMode>,
    /// Whether the limit on open files is enforced.
    pub enforce_ulimit_nofile: bool,
    pub column_options: LedgerColumnOptions,
}

impl Default for BlockstoreOptions {
    /// Primary access, no recovery mode, the limit on open files enforced,
    /// and the default column options.
    fn default() -> (options: Self)
        ensures
            options.access_type == AccessType::Primary,
            options.recovery_mode.is_none(),
            options.enforce_ulimit_nofile,
            options.column_options == LedgerColumnOptions::spec_default(),
    {
        Self {
            access_type: AccessType::Primary,
            recovery_mode: None,
            enforce_ulimit_nofile: true,
            column_options: LedgerColumnOptions::default(),
        }
    }
}

/// How a process accesses the store.
#[derive(Clone, Debug, PartialEq, Eq)]
pub enum AccessType {
    /// Read and write access; one process can have it.
    Primary,
    /// Read and write access with automatic compaction switched off.
    PrimaryForMaintenance,
    /// Read access; many processes can have it, also beside a primary one.
    Secondary,
}

/// How the store treats a damaged write-ahead log when it is opened.
#[derive(Debug, Clone)]
pub enum BlockstoreRecoveryMode {
    TolerateCorruptedTailRecords,
    AbsoluteConsistency,
    PointInTime,
    SkipAnyCorruptedRecord,
}

/// `str::eq`: whether two strings hold the same text.
#[verifier::external_body]
fn same_text(a: &str, b: &str) -> (same: bool)
    ensures
        same == (a@ == b@),
{
    a == b
}

impl BlockstoreRecoveryMode {
    /// The recovery mode of the given name, if it is the name of one.
    pub open spec fn named(name: Seq<char>) -> Option<BlockstoreRecoveryMode> {
        if name == "tolerate_corrupted_tail_records"@ {
            Some(BlockstoreRecoveryMode::TolerateCorruptedTailRecords)
        } else if name == "absolute_consistency"@ {
            Some(BlockstoreRecoveryMode::AbsoluteConsistency)
        } else if name == "point_in_time"@ {
            Some(BlockstoreRecoveryMode::PointInTime)
        } else if name == "skip_any_corrupted_record"@ {
            Some(BlockstoreRecoveryMode::SkipAnyCorruptedRecord)
        } else {
            None
        }
    }

    /// The recovery mode of the given name, or nothing where no mode has
    /// that name.
    pub fn from_name(string: &str) -> (mode: Option<Self>)
        ensures
            mode == Self::named(string@),
    {
        if same_text(string, "tolerate_corrupted_tail_records") {
            Some(BlockstoreRecoveryMode::TolerateCorruptedTailRecords)
        } else if same_text(string, "absolute_consistency") {
            Some(BlockstoreRecoveryMode::AbsoluteConsistency)
        } else if same_text(string, "point_in_time") {
            Some(BlockstoreRecoveryMode::PointInTime)
        } else if same_text(string, "skip_any_corrupted_record") {
            Some(BlockstoreRecoveryMode::SkipAnyCorruptedRecord)
        } else {
            None
        }
    }

    /// The recovery mode of the given name, which must be the name of one.
    pub fn from(string: &str) -> (mode: Self)
        requires
            Self::named(string@).is_some(),
        ensures
            Some(mode) == Self::named(string@),
    {
        Self::from_name(string).unwrap()
    }
}

/// The options of the columns of a ledger store.
#[derive(Debug, Clone)]
pub struct LedgerColumnOptions {
    /// How shreds are stored.
    pub shred_storage_type: ShredStorageType,
    /// How the columns that can be compressed are compressed.
    pub compression_type: BlockstoreCompressionType,
    /// After how many operations a performance sample is taken; 0 for none.
    pub rocks_perf_sample_interval: usize,
}

impl Default for LedgerColumnOptions {
    fn default() -> (options: Self)
        ensures
            options == Self::spec_default(),
    {
        Self {
            shred_storage_type: ShredStorageType::RocksLevel,
            compression_type: BlockstoreCompressionType::default(),
            rocks_perf_sample_interval: 0,
        }
    }
}

impl LedgerColumnOptions {
    /// The default column options: level storage, no compression, no
    /// performance samples.
    pub open spec fn spec_default() -> Self {
        LedgerColumnOptions {
            shred_storage_type: ShredStorageType::RocksLevel,
            compression_type: BlockstoreCompressionType::Uncompressed,
            rocks_perf_sample_interval: 0,
        }
    }

    /// The name of the way in which shreds are stored.
    pub fn get_storage_type_string(&self) -> (name: &'static str)
        ensures
            name@ == match self.shred_storage_type {
                ShredStorageType::RocksLevel => "rocks_level"@,
                ShredStorageType::RocksFifo(_) => "rocks_fifo"@,
            },
    {
        match self.shred_storage_type {
            ShredStorageType::RocksLevel => "rocks_level",
            ShredStorageType::RocksFifo(_) => "rocks_fifo",
        }
    }

    /// The name of the way in which columns are compressed.
    pub fn get_compression_type_string(&self) -> (name: &'static str)
        ensures
            name@ == match self.compression_type {
                BlockstoreCompressionType::Uncompressed => "None"@,
                BlockstoreCompressionType::Snappy => "Snappy"@,
                BlockstoreCompressionType::Lz4 => "Lz4"@,
                BlockstoreCompressionType::Zlib => "Zlib"@,
            },
    {
        match self.compression_type {
            BlockstoreCompressionType::Uncompressed => "None",
            BlockstoreCompressionType::Snappy => "Snappy",
            BlockstoreCompressionType::Lz4 => "Lz4",
            BlockstoreCompressionType::Zlib => "Zlib",
        }
    }
}

/// How shreds are stored.
#[derive(Debug, Clone)]
pub enum ShredStorageType {
    /// Under level compaction.
    RocksLevel,
    /// Under first-in-first-out compaction, which reclaims storage with
    /// less I/O.
    RocksFifo(BlockstoreRocksFifoOptions),
}

impl Default for ShredStorageType {
    fn default() -> (storage: Self)
        ensures
            storage == ShredStorageType::RocksLevel,
    {
        Self::RocksLevel
    }
}

/// The sizes of the shred columns under first-in-first-out compaction. Each
/// must exceed the size of the write buffer.
#[derive(Debug, Clone)]
pub struct BlockstoreRocksFifoOptions {
    /// The most bytes that data shreds may take.
    pub shred_data_cf_size: u64,
    /// The most bytes that coding shreds may take.
    pub shred_code_cf_size: u64,
}

/// The default size of the data shred column: 125 GiB, a quarter of a store
/// of 500 GiB.
pub const DEFAULT_FIFO_COMPACTION_DATA_CF_SIZE: u64 = 125 * 1024 * 1024 * 1024;

/// The default size of the coding shred column: 100 GiB, a fifth of a store
/// of 500 GiB.
pub const DEFAULT_FIFO_COMPACTION_CODING_CF_SIZE: u64 = 100 * 1024 * 1024 * 1024;

impl Default for BlockstoreRocksFifoOptions {
    fn default() -> (options: Self)
        ensures
            options.shred_data_cf_size == DEFAULT_FIFO_COMPACTION_DATA_CF_SIZE,
            options.shred_code_cf_size == DEFAULT_FIFO_COMPACTION_CODING_CF_SIZE,
    {
        Self {
            shred_data_cf_size: DEFAULT_FIFO_COMPACTION_DATA_CF_SIZE,
            shred_code_cf_size: DEFAULT_FIFO_COMPACTION_CODING_CF_SIZE,
        }
    }
}

/// How the columns that can be compressed are compressed.
#[derive(Debug, Clone)]
pub enum BlockstoreCompressionType {
    Uncompressed,
    Snappy,
    Lz4,
    Zlib,
}

impl Default for BlockstoreCompressionType {
    fn default() -> (compression: Self)
        ensures
            compression == BlockstoreCompressionType::Uncompressed,
    {
        Self::Uncompressed
    }
}

} // verus!
