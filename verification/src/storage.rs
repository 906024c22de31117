//! Physical storage profiles for replicated business tables.

use crate::text::same_text;
use vstd::prelude::*;

verus! {

/// A bounded set of analytical Cloudberry 2.1 storage profiles for business tables.
///
/// Metadata and temporary staging tables intentionally do not use this setting; they remain heap
/// tables because they are small, highly mutable control structures. Compression settings are
/// fixed per profile so stored configuration cannot become an arbitrary SQL fragment. Heap is
/// deliberately absent: replicated business tables are an analytical replica.
#[derive(Debug, Clone, Copy, PartialEq, Eq, Hash, Structural)]
pub enum TargetStorage {
    /// Append-optimized column storage is the production business-table default.
    AoColumn,
    /// Opt-in PAX evaluation profile. This does not claim complete SQL or operational support.
    PaxExperimental,
}

impl Default for TargetStorage {
    fn default() -> (r: Self)
        ensures
            r == TargetStorage::AoColumn,
    {
        TargetStorage::AoColumn
    }
}

impl TargetStorage {
    pub open spec fn method_name(self) -> &'static str {
        match self {
            TargetStorage::AoColumn => "ao_column",
            TargetStorage::PaxExperimental => "pax",
        }
    }

    pub open spec fn clause(self) -> &'static str {
        match self {
            TargetStorage::AoColumn => "USING ao_column WITH (compresstype='zstd', compresslevel=1)",
            TargetStorage::PaxExperimental =>
                "USING pax WITH (storage_format='porc', compresstype='zstd', compresslevel=1)",
        }
    }

    pub open spec fn tag(self) -> &'static str {
        match self {
            TargetStorage::AoColumn => "ao-column-zstd-1-v1",
            TargetStorage::PaxExperimental => "pax-experimental-porc-zstd-1-v1",
        }
    }

    pub open spec fn name(self) -> &'static str {
        match self {
            TargetStorage::AoColumn => "ao_column",
            TargetStorage::PaxExperimental => "pax_experimental",
        }
    }

    /// The profile that a configured text stands for.
    pub open spec fn named(value: Seq<char>) -> Option<TargetStorage> {
        if value == "ao_column"@ {
            Some(TargetStorage::AoColumn)
        } else if value == "pax_experimental"@ {
            Some(TargetStorage::PaxExperimental)
        } else {
            None
        }
    }

    /// The text that stands for the profile in stored configuration.
    #[must_use]
    pub fn as_str(self) -> (r: &'static str)
        ensures
            r == self.name(),
    {
        match self {
            TargetStorage::AoColumn => "ao_column",
            TargetStorage::PaxExperimental => "pax_experimental",
        }
    }

    /// Reads the profile from stored configuration.
    pub fn parse(value: &str) -> (r: Option<Self>)
        ensures
            r == Self::named(value@),
    {
        if same_text(value, "ao_column") {
            Some(TargetStorage::AoColumn)
        } else if same_text(value, "pax_experimental") {
            Some(TargetStorage::PaxExperimental)
        } else {
            None
        }
    }

    #[must_use]
    pub fn access_method(self) -> (r: &'static str)
        ensures
            r == self.method_name(),
    {
        match self {
            TargetStorage::AoColumn => "ao_column",
            TargetStorage::PaxExperimental => "pax",
        }
    }

    #[must_use]
    pub fn create_clause(self) -> (r: &'static str)
        ensures
            r == self.clause(),
    {
        match self {
            TargetStorage::AoColumn => "USING ao_column WITH (compresstype='zstd', compresslevel=1)",
            TargetStorage::PaxExperimental =>
                "USING pax WITH (storage_format='porc', compresstype='zstd', compresslevel=1)",
        }
    }

    /// Stable identity included in managed-table fingerprints.
    #[must_use]
    pub fn fingerprint_tag(self) -> (r: &'static str)
        ensures
            r == self.tag(),
    {
        match self {
            TargetStorage::AoColumn => "ao-column-zstd-1-v1",
            TargetStorage::PaxExperimental => "pax-experimental-porc-zstd-1-v1",
        }
    }
}

#[derive(Debug, PartialEq, Eq)]
pub enum StorageCapabilityError {
    /// Cloudberry does not provide a required table access method.
    MissingAccessMethod(&'static str),
}

/// Asks whether a table access method named `$1` exists.
pub const ACCESS_METHOD_EXISTS_SQL: &'static str =
    "SELECT EXISTS (SELECT 1 FROM pg_catalog.pg_am WHERE amtype = 't' AND amname = $1)";

/// Reads the access method of the relation `$1`.`$2`.
pub const RELATION_ACCESS_METHOD_SQL: &'static str =
    "SELECT am.amname FROM pg_catalog.pg_class AS c JOIN pg_catalog.pg_namespace AS n ON n.oid = c.relnamespace JOIN pg_catalog.pg_am AS am ON am.oid = c.relam WHERE n.nspname = $1 AND c.relname = $2";

/// Decides whether a configured storage profile can be used on a target, given whether the
/// target has its table access method.
///
/// PAX is compile-time optional in Cloudberry, so a 2.1 version string alone is insufficient.
pub fn require_access_method(storage: TargetStorage, exists: bool) -> (r: Result<
    (),
    StorageCapabilityError,
>)
    ensures
        match r {
            Ok(()) => exists,
            Err(e) => !exists && e == StorageCapabilityError::MissingAccessMethod(
                storage.method_name(),
            ),
        },
{
    if exists {
        Ok(())
    } else {
        Err(StorageCapabilityError::MissingAccessMethod(storage.access_method()))
    }
}

/// Every storage profile reads back from its stored text.
pub proof fn law_profile_reads_back(storage: TargetStorage)
    ensures
        TargetStorage::named(storage.name()@) == Some(storage),
{
    reveal_strlit("ao_column");
    reveal_strlit("pax_experimental");
    assert("ao_column"@.len() != "pax_experimental"@.len());
}

/// Two storage profiles never share an access method or a fingerprint tag.
pub proof fn law_profiles_are_distinguishable(a: TargetStorage, b: TargetStorage)
    ensures
        a.method_name()@ == b.method_name()@ <==> a == b,
        a.tag()@ == b.tag()@ <==> a == b,
{
    reveal_strlit("ao_column");
    reveal_strlit("pax");
    reveal_strlit("ao-column-zstd-1-v1");
    reveal_strlit("pax-experimental-porc-zstd-1-v1");
    assert("ao_column"@.len() != "pax"@.len());
    assert("ao-column-zstd-1-v1"@.len() != "pax-experimental-porc-zstd-1-v1"@.len());
}

/// The profiles: append-optimized columns are the compressed default, PAX is experimental, and each
/// has its own access method, storage options, fingerprint tag and configured name.
pub proof fn law_storage_profiles(storage: TargetStorage)
    ensures
        storage is AoColumn ==> {
            &&& storage.method_name() == "ao_column"
            &&& storage.clause() == "USING ao_column WITH (compresstype='zstd', compresslevel=1)"
            &&& storage.tag() == "ao-column-zstd-1-v1"
            &&& storage.name() == "ao_column"
        },
        storage is PaxExperimental ==> {
            &&& storage.method_name() == "pax"
            &&& storage.clause()
                == "USING pax WITH (storage_format='porc', compresstype='zstd', compresslevel=1)"
            &&& storage.tag() == "pax-experimental-porc-zstd-1-v1"
            &&& storage.name() == "pax_experimental"
        },
{
}

} // verus!
